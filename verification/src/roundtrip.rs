//! What the reader and the writer of profile texts owe each other.

use crate::eq::{
    band_of_tokens, line_kind, named_field, named_kind, parse_profile, preamp_token, read_line,
    read_lines, scan_tokens, Field, FilterKind, FilterView, ProfileView,
};
use crate::number::{ascii_bytes, is_float_literal, is_float_text, lemma_literal_text, text_of};
use crate::render::{
    band_tokens, decimal, is_writable, preamp_tokens, profile_lines, render_profile, switch_word,
};
use crate::text::{
    ascii_upper_text, begins_with, is_ascii_text, is_line, is_space, is_token, is_word,
    join_tokens, lemma_lines_of_join, lemma_tokens_of_join, lemma_trim_of_trimmed, lines, tokens,
    trim, upper_of,
};
use vstd::prelude::*;

verus! {

/// Whether a token changes nothing of a band: it is no switch, no key word
/// and no name of a kind.
pub open spec fn is_filler(t: Seq<char>) -> bool {
    &&& !is_word(t, "ON"@)
    &&& !is_word(t, "OFF"@)
    &&& named_field(t) is None
    &&& named_kind(t) is None
}

/// Whether each of `ts` can stand as a token and holds ASCII characters only.
pub open spec fn all_tokens(ts: Seq<Seq<char>>) -> bool {
    forall|j: int| 0 <= j < ts.len() ==> is_token(#[trigger] ts[j]) && is_ascii_text(ts[j])
}

proof fn reveal_words()
    ensures
        "ON"@.len() == 2 && "ON"@[0] == 'O' && "ON"@[1] == 'N',
        "OFF"@.len() == 3 && "OFF"@[0] == 'O' && "OFF"@[1] == 'F' && "OFF"@[2] == 'F',
        "FC"@.len() == 2 && "FC"@[0] == 'F' && "FC"@[1] == 'C',
        "GAIN"@.len() == 4 && "GAIN"@[0] == 'G' && "GAIN"@[1] == 'A' && "GAIN"@[2] == 'I' && "GAIN"@[3]
            == 'N',
        "Q"@.len() == 1 && "Q"@[0] == 'Q',
        "BW"@.len() == 2 && "BW"@[0] == 'B' && "BW"@[1] == 'W',
        "PK"@.len() == 2 && "PK"@[0] == 'P' && "PK"@[1] == 'K',
        "PEAK"@.len() == 4 && "PEAK"@[3] == 'K',
        "LSC"@.len() == 3 && "LSC"@[0] == 'L' && "LSC"@[1] == 'S' && "LSC"@[2] == 'C',
        "LOWSHELF"@.len() == 8 && "LOWSHELF"@[7] == 'F',
        "HSC"@.len() == 3 && "HSC"@[0] == 'H' && "HSC"@[1] == 'S' && "HSC"@[2] == 'C',
        "HIGHSHELF"@.len() == 9 && "HIGHSHELF"@[8] == 'F',
        "LP"@.len() == 2 && "LP"@[0] == 'L' && "LP"@[1] == 'P',
        "LOWPASS"@.len() == 7 && "LOWPASS"@[6] == 'S',
        "HP"@.len() == 2 && "HP"@[0] == 'H' && "HP"@[1] == 'P',
        "HIGHPASS"@.len() == 8 && "HIGHPASS"@[7] == 'S',
        "BP"@.len() == 2 && "BP"@[0] == 'B' && "BP"@[1] == 'P',
        "NO"@.len() == 2 && "NO"@[0] == 'N' && "NO"@[1] == 'O',
        "NOTCH"@.len() == 5 && "NOTCH"@[4] == 'H',
        "AP"@.len() == 2 && "AP"@[0] == 'A' && "AP"@[1] == 'P',
{
    reveal_strlit("ON");
    reveal_strlit("OFF");
    reveal_strlit("FC");
    reveal_strlit("GAIN");
    reveal_strlit("Q");
    reveal_strlit("BW");
    reveal_strlit("PK");
    reveal_strlit("PEAK");
    reveal_strlit("LSC");
    reveal_strlit("LOWSHELF");
    reveal_strlit("HSC");
    reveal_strlit("HIGHSHELF");
    reveal_strlit("LP");
    reveal_strlit("LOWPASS");
    reveal_strlit("HP");
    reveal_strlit("HIGHPASS");
    reveal_strlit("BP");
    reveal_strlit("NO");
    reveal_strlit("NOTCH");
    reveal_strlit("AP");
}

/// An ASCII token that ends in a colon changes nothing of a band.
pub proof fn lemma_label_is_filler(t: Seq<char>)
    requires
        t.len() > 0,
        t[t.len() - 1] == ':',
        is_ascii_text(t),
    ensures
        is_filler(t),
{
    reveal_words();
    let a = upper_of(t);
    assert(a == ascii_upper_text(t));
    assert(a.len() == t.len());
    assert(a[a.len() - 1] == ':');
}

/// The words `Filter`, `Hz` and `dB` change nothing of a band.
pub proof fn lemma_filler_words()
    ensures
        is_filler("Filter"@),
        is_filler("Hz"@),
        is_filler("dB"@),
        is_token("Filter"@) && is_ascii_text("Filter"@),
        is_token("Hz"@) && is_ascii_text("Hz"@),
        is_token("dB"@) && is_ascii_text("dB"@),
{
    reveal_words();
    reveal_strlit("Filter");
    reveal_strlit("Hz");
    reveal_strlit("dB");
    assert(is_ascii_text("Filter"@));
    assert(is_ascii_text("Hz"@));
    assert(is_ascii_text("dB"@));
    let a = upper_of("Filter"@);
    assert(a.len() == 6);
    let b = upper_of("Hz"@);
    assert(b.len() == 2 && b[0] == 'H' && b[1] == 'Z');
    let c = upper_of("dB"@);
    assert(c.len() == 2 && c[0] == 'D' && c[1] == 'B');
}

/// The words `ON` and `OFF` are read as the switches that they are.
pub proof fn lemma_switch_words(enabled: bool)
    ensures
        is_word(switch_word(enabled), "ON"@) == enabled,
        is_word(switch_word(enabled), "OFF"@) == !enabled,
        is_token(switch_word(enabled)),
        is_ascii_text(switch_word(enabled)),
{
    reveal_words();
    assert(is_ascii_text(switch_word(enabled)));
    let a = upper_of(switch_word(enabled));
    if enabled {
        assert(a.len() == 2);
        assert(a =~= "ON"@);
    } else {
        assert(a.len() == 3);
        assert(a =~= "OFF"@);
    }
}

/// The word of a number of a band.
pub open spec fn field_word(field: Field) -> Seq<char> {
    match field {
        Field::Frequency => "Fc"@,
        Field::Gain => "Gain"@,
        Field::QFactor => "Q"@,
        Field::Bandwidth => "BW"@,
    }
}

/// The key words `Fc`, `Gain`, `Q` and `BW` are read as the key words that
/// they are, and as no switch.
pub proof fn lemma_field_words(field: Field)
    ensures
        !is_word(field_word(field), "ON"@),
        !is_word(field_word(field), "OFF"@),
        named_field(field_word(field)) == Some(field),
        is_token(field_word(field)),
        is_ascii_text(field_word(field)),
{
    reveal_words();
    reveal_strlit("Fc");
    reveal_strlit("Gain");
    assert(is_ascii_text(field_word(field)));
    let a = upper_of(field_word(field));
    match field {
        Field::Frequency => {
            assert(a.len() == 2 && a[0] == 'F' && a[1] == 'C');
            assert(a =~= "FC"@);
        },
        Field::Gain => {
            assert(a.len() == 4 && a[0] == 'G' && a[1] == 'A' && a[2] == 'I' && a[3] == 'N');
            assert(a =~= "GAIN"@);
        },
        Field::QFactor => {
            assert(a.len() == 1 && a[0] == 'Q');
            assert(a =~= "Q"@);
        },
        Field::Bandwidth => {
            assert(a.len() == 2 && a[0] == 'B' && a[1] == 'W');
            assert(a =~= "BW"@);
        },
    }
}

/// The word that writes a kind is read as that kind, and as no switch and no
/// key word.
pub proof fn lemma_kind_words(kind: FilterKind)
    requires
        !(kind is Unknown),
    ensures
        !is_word(kind.word(), "ON"@),
        !is_word(kind.word(), "OFF"@),
        named_field(kind.word()) is None,
        named_kind(kind.word()) == Some(kind),
        is_token(kind.word()),
        is_ascii_text(kind.word()),
{
    reveal_words();
    assert(is_ascii_text(kind.word()));
    let a = upper_of(kind.word());
    assert(a =~= kind.word());
    assert(a.len() == 2 || a.len() == 3);
    assert(a[0] == kind.word()[0]);
    assert(a[1] == kind.word()[1]);
    if a.len() == 3 {
        assert(a[2] == kind.word()[2]);
    }
}

/// The digits of a number are digits, and there is one at least.
pub proof fn lemma_decimal_digits(n: nat)
    ensures
        decimal(n).len() > 0,
        forall|k: int| 0 <= k < decimal(n).len() ==> 0x30 <= (#[trigger] decimal(n)[k]) as u32 <= 0x39,
    decreases n,
{
    if n >= 10 {
        lemma_decimal_digits(n / 10);
    }
}

/// The tokens of the line of a band can stand as tokens.
pub proof fn lemma_band_tokens(f: FilterView, number: nat)
    requires
        f.well_formed(),
        !(f.filter_type is Unknown),
    ensures
        all_tokens(band_tokens(f, number)),
        band_tokens(f, number).len() == (if f.bandwidth is Some {
            14int
        } else {
            12int
        }),
{
    let ts = band_tokens(f, number);
    lemma_filler_words();
    lemma_switch_words(f.enabled);
    lemma_kind_words(f.filter_type);
    lemma_field_words(Field::Frequency);
    lemma_field_words(Field::Gain);
    lemma_field_words(Field::QFactor);
    lemma_field_words(Field::Bandwidth);
    lemma_decimal_digits(number);
    lemma_literal_text(f.frequency);
    lemma_literal_text(f.gain);
    lemma_literal_text(f.q_factor);
    if f.bandwidth is Some {
        lemma_literal_text(f.bandwidth->0);
    }
    let label = decimal(number).push(':');
    assert(is_token(label) && is_ascii_text(label)) by {
        assert forall|k: int| 0 <= k < label.len() implies !is_space(#[trigger] label[k])
            && label[k] as u32 <= 0x7f by {
            if k < decimal(number).len() {
                assert(label[k] == decimal(number)[k]);
            }
        }
    }
    assert forall|j: int| 0 <= j < ts.len() implies is_token(#[trigger] ts[j]) && is_ascii_text(
        ts[j],
    ) by {
        if j == 0 {
        } else if j == 1 {
        } else if j == 2 {
        } else if j == 3 {
        } else if j == 4 {
        } else if j == 5 {
        } else if j == 6 {
        } else if j == 7 {
        } else if j == 8 {
        } else if j == 9 {
        } else if j == 10 {
        } else if j == 11 {
        } else if j == 12 {
        } else {
        }
    }
}

/// The tokens of the line of a band are read as the band.
pub proof fn lemma_band_is_read_back(f: FilterView, number: nat)
    requires
        f.well_formed(),
        !(f.filter_type is Unknown),
    ensures
        band_of_tokens(band_tokens(f, number)) == Some(f),
{
    let ts = band_tokens(f, number);
    lemma_band_tokens(f, number);
    lemma_filler_words();
    lemma_switch_words(f.enabled);
    lemma_kind_words(f.filter_type);
    lemma_field_words(Field::Frequency);
    lemma_field_words(Field::Gain);
    lemma_field_words(Field::QFactor);
    lemma_field_words(Field::Bandwidth);
    lemma_literal_text(f.frequency);
    lemma_literal_text(f.gain);
    lemma_literal_text(f.q_factor);
    assert(is_ascii_text(decimal(number).push(':')));
    lemma_label_is_filler(decimal(number).push(':'));
    let f0 = FilterView::initial();
    let f1 = f0.with_enabled(f.enabled);
    let f2 = f1.with_kind(f.filter_type);
    let f3 = f2.with_value(Field::Frequency, f.frequency);
    let f4 = f3.with_value(Field::Gain, f.gain);
    let f5 = f4.with_value(Field::QFactor, f.q_factor);
    assert(ts[0] == "Filter"@);
    assert(ts[1] == decimal(number).push(':'));
    assert(ts[2] == switch_word(f.enabled));
    assert(ts[3] == f.filter_type.word());
    assert(ts[4] == "Fc"@);
    assert(ts[5] == text_of(f.frequency));
    assert(ts[6] == "Hz"@);
    assert(ts[7] == "Gain"@);
    assert(ts[8] == text_of(f.gain));
    assert(ts[9] == "dB"@);
    assert(ts[10] == "Q"@);
    assert(ts[11] == text_of(f.q_factor));
    if f.bandwidth is Some {
        lemma_literal_text(f.bandwidth->0);
        let f6 = f5.with_value(Field::Bandwidth, f.bandwidth->0);
        assert(ts[12] == "BW"@);
        assert(ts[13] == text_of(f.bandwidth->0));
        assert(scan_tokens(f6, ts, 14) == Some(f6));
        assert(scan_tokens(f5, ts, 12) == Some(f6));
        assert(f6 == f);
    } else {
        assert(scan_tokens(f5, ts, 12) == Some(f5));
        assert(f5 == f);
    }
    assert(scan_tokens(f4, ts, 10) == Some(f));
    assert(scan_tokens(f4, ts, 9) == Some(f));
    assert(scan_tokens(f3, ts, 7) == Some(f));
    assert(scan_tokens(f3, ts, 6) == Some(f));
    assert(scan_tokens(f2, ts, 4) == Some(f));
    assert(scan_tokens(f1, ts, 3) == Some(f));
    assert(scan_tokens(f0, ts, 2) == Some(f));
    assert(scan_tokens(f0, ts, 1) == Some(f));
    assert(scan_tokens(f0, ts, 0) == Some(f));
}

/// Tokens that are written with one space between them make a line of ASCII
/// characters that begins with the first of them and does not end in white
/// space.
pub proof fn lemma_tokens_make_a_line(ts: Seq<Seq<char>>, i: int)
    requires
        0 <= i <= ts.len(),
        all_tokens(ts),
    ensures
        is_line(join_tokens(ts, i)),
        is_ascii_text(join_tokens(ts, i)),
        i < ts.len() ==> join_tokens(ts, i).len() >= ts[i].len() && join_tokens(ts, i).take(
            ts[i].len() as int,
        ) == ts[i] && !is_space(join_tokens(ts, i).last()),
    decreases ts.len() - i,
{
    if i < ts.len() {
        lemma_tokens_make_a_line(ts, i + 1);
        let rest = join_tokens(ts, i + 1);
        let line = join_tokens(ts, i);
        assert(is_token(ts[i]) && is_ascii_text(ts[i]));
        assert forall|k: int| 0 <= k < line.len() implies #[trigger] line[k] != '\n' && line[k] as u32
            <= 0x7f by {
            if k < ts[i].len() {
                assert(line[k] == ts[i][k]);
                assert(!is_space(ts[i][k]));
            } else if i < ts.len() - 1 && k > ts[i].len() {
                assert(line[k] == rest[k - ts[i].len() - 1]);
            }
        }
        assert(line.take(ts[i].len() as int) =~= ts[i]);
        if i == ts.len() - 1 {
            assert(line.last() == ts[i].last());
        } else {
            assert(is_token(ts[i + 1]));
            assert(rest.len() > 0);
            assert(line.last() == rest.last());
        }
    }
}

/// A line of tokens that are written with one space between them is read as
/// those tokens, and is the same without the white space at its ends.
proof fn lemma_line_of_tokens(ts: Seq<Seq<char>>)
    requires
        ts.len() > 0,
        all_tokens(ts),
    ensures
        trim(join_tokens(ts, 0)) == join_tokens(ts, 0),
        tokens(join_tokens(ts, 0)) == ts,
        upper_of(join_tokens(ts, 0)) == ascii_upper_text(join_tokens(ts, 0)),
        join_tokens(ts, 0).len() >= ts[0].len(),
        join_tokens(ts, 0).take(ts[0].len() as int) == ts[0],
{
    let line = join_tokens(ts, 0);
    lemma_tokens_make_a_line(ts, 0);
    assert(is_token(ts[0]));
    assert(line[0] == line.take(ts[0].len() as int)[0]);
    lemma_trim_of_trimmed(line);
    lemma_tokens_of_join(ts, 0);
    assert(ts.skip(0) =~= ts);
}

/// The line of the gain before the bands is read as that gain.
pub proof fn lemma_preamp_is_read_back(p: ProfileView, preamp: Seq<u8>)
    requires
        is_float_literal(preamp),
    ensures
        all_tokens(preamp_tokens(preamp)),
        read_line(p, join_tokens(preamp_tokens(preamp), 0)) == Some(
            ProfileView { preamp_db: preamp, ..p },
        ),
{
    let ts = preamp_tokens(preamp);
    let line = join_tokens(ts, 0);
    reveal_strlit("Preamp:");
    reveal_strlit("PREAMP:");
    reveal_strlit("dB");
    lemma_literal_text(preamp);
    assert(is_token(ts[0]) && is_ascii_text(ts[0]));
    assert(is_token(ts[2]) && is_ascii_text(ts[2]));
    assert(all_tokens(ts));
    lemma_line_of_tokens(ts);
    assert(ts[0].len() == 7);
    let head = line.take(7);
    assert(head == ts[0]);
    assert(line[0] == head[0]);
    let upper = upper_of(line);
    assert(upper.take(7) =~= "PREAMP:"@) by {
        assert forall|k: int| 0 <= k < 7 implies upper.take(7)[k] == "PREAMP:"@[k] by {
            assert(line[k] == head[k]);
        }
    }
    assert(begins_with(line, "PREAMP:"@));
    assert(line_kind(line) is Preamp);
    assert(preamp_token(ts) == Some(text_of(preamp)));
    assert(is_float_text(text_of(preamp)));
    assert(ascii_bytes(text_of(preamp)) == preamp);
}

/// The line of a band is read as that band, behind the bands read before.
pub proof fn lemma_band_line_is_read_back(p: ProfileView, f: FilterView, number: nat)
    requires
        f.well_formed(),
        !(f.filter_type is Unknown),
    ensures
        read_line(p, join_tokens(band_tokens(f, number), 0)) == Some(
            ProfileView { filters: p.filters.push(f), ..p },
        ),
{
    let ts = band_tokens(f, number);
    let line = join_tokens(ts, 0);
    reveal_strlit("Filter");
    reveal_strlit("FILTER");
    reveal_strlit("PREAMP:");
    lemma_band_tokens(f, number);
    lemma_band_is_read_back(f, number);
    lemma_line_of_tokens(ts);
    assert(ts[0] == "Filter"@);
    assert(ts[0].len() == 6);
    let head = line.take(6);
    assert(head == ts[0]);
    assert(line[0] == head[0]);
    let upper = upper_of(line);
    assert(upper[0] == 'F');
    assert(upper.len() >= 7 ==> upper.take(7)[0] == 'F');
    assert(!begins_with(line, "PREAMP:"@));
    assert(upper.take(6) =~= "FILTER"@) by {
        assert forall|k: int| 0 <= k < 6 implies upper.take(6)[k] == "FILTER"@[k] by {
            assert(line[k] == head[k]);
        }
    }
    assert(begins_with(line, "FILTER"@));
    assert(line_kind(line) is Band);
}

/// The lines of the text of a profile from the line of the band `k` on are read
/// as the bands from `k` on, behind the bands before them.
proof fn lemma_bands_are_read_back(p: ProfileView, k: int)
    requires
        is_writable(p),
        0 <= k <= p.filters.len(),
    ensures
        read_lines(
            ProfileView { preamp_db: p.preamp_db, filters: p.filters.take(k) },
            profile_lines(p).push(Seq::empty()),
            k + 1,
        ) == Some(p),
    decreases p.filters.len() - k,
{
    let ls = profile_lines(p).push(Seq::empty());
    let acc = ProfileView { preamp_db: p.preamp_db, filters: p.filters.take(k) };
    if k == p.filters.len() {
        assert(ls[k + 1] =~= Seq::<char>::empty());
        assert(trim(ls[k + 1]) =~= Seq::<char>::empty());
        assert(read_line(acc, ls[k + 1]) == Some(acc));
        assert(read_lines(acc, ls, k + 2) == Some(acc));
        assert(p.filters.take(k) =~= p.filters);
    } else {
        let f = p.filters[k];
        assert(f.well_formed());
        assert(ls[k + 1] == join_tokens(band_tokens(f, (k + 1) as nat), 0));
        lemma_band_line_is_read_back(acc, f, (k + 1) as nat);
        assert(acc.filters.push(f) =~= p.filters.take(k + 1));
        lemma_bands_are_read_back(p, k + 1);
    }
}

/// Each line of the text of a profile is a line.
proof fn lemma_profile_lines(p: ProfileView)
    requires
        is_writable(p),
    ensures
        forall|j: int| 0 <= j < profile_lines(p).len() ==> is_line(#[trigger] profile_lines(p)[j]),
{
    let ls = profile_lines(p);
    assert forall|j: int| 0 <= j < ls.len() implies is_line(#[trigger] ls[j]) by {
        if j == 0 {
            lemma_preamp_is_read_back(p, p.preamp_db);
            lemma_tokens_make_a_line(preamp_tokens(p.preamp_db), 0);
        } else {
            let f = p.filters[j - 1];
            assert(f.well_formed());
            lemma_band_tokens(f, j as nat);
            lemma_tokens_make_a_line(band_tokens(f, j as nat), 0);
        }
    }
}

/// A profile that is written as text and read back is the profile that was
/// written: the gain before the bands, and of every band whether it is enabled,
/// its kind, its frequency, its gain, its Q and its bandwidth.
///
/// This holds of every profile whose bands are of kinds that have a word. A
/// band of unknown kind is written without one and read back as a peaking band.
pub proof fn lemma_round_trip(p: ProfileView)
    requires
        is_writable(p),
    ensures
        parse_profile(render_profile(p)) == Some(p),
{
    let ls = profile_lines(p);
    lemma_profile_lines(p);
    lemma_lines_of_join(ls, 0);
    assert(ls.skip(0) =~= ls);
    let all = ls.push(Seq::empty());
    assert(lines(render_profile(p)) == all);
    let start = ProfileView::initial();
    lemma_preamp_is_read_back(start, p.preamp_db);
    let acc = ProfileView { preamp_db: p.preamp_db, filters: p.filters.take(0) };
    assert(p.filters.take(0) =~= start.filters);
    assert(all[0] == join_tokens(preamp_tokens(p.preamp_db), 0));
    assert(read_line(start, all[0]) == Some(acc));
    lemma_bands_are_read_back(p, 0);
}

} // verus!
