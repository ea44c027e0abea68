//! Writing a profile as text.
//!
//! The text of a profile is its lines, each ended by a line feed; a line is its
//! tokens, with one space between two of them. The first line holds the gain
//! before the bands, each further line one band, numbered from 1:
//!
//! ```text
//! Preamp: 0.0 dB
//! Filter 1: ON PK Fc 1000.0 Hz Gain 0.0 dB Q 0.707
//! ```
//!
//! A band of a kind that this library does not know is written without the
//! word for its kind. The bandwidth is written where the band has one.

use crate::eq::{EqProfile, Filter, FilterType, FilterView, ProfileView};
use crate::number::text_of;
use crate::text::{chars_of, join_lines, join_tokens, string_of, texts, write_tokens};
use vstd::prelude::*;

verus! {

/// The digits of `n` in base ten, without leading zeros.
pub open spec fn decimal(n: nat) -> Seq<char>
    decreases n,
{
    if n < 10 {
        seq![(0x30 + n) as char]
    } else {
        decimal(n / 10).push((0x30 + n % 10) as char)
    }
}

/// The word that writes whether a band is enabled.
pub open spec fn switch_word(enabled: bool) -> Seq<char> {
    if enabled {
        "ON"@
    } else {
        "OFF"@
    }
}

/// The tokens of the line that holds the gain before the bands.
pub open spec fn preamp_tokens(preamp: Seq<u8>) -> Seq<Seq<char>> {
    seq!["Preamp:"@, text_of(preamp), "dB"@]
}

/// The token that names the kind of a band; none for an unknown kind.
pub open spec fn kind_tokens(f: FilterView) -> Seq<Seq<char>> {
    if f.filter_type is Unknown {
        Seq::empty()
    } else {
        seq![f.filter_type.word()]
    }
}

/// The tokens that hold the bandwidth of a band; none where it has none.
pub open spec fn bandwidth_tokens(f: FilterView) -> Seq<Seq<char>> {
    match f.bandwidth {
        Some(b) => seq!["BW"@, text_of(b)],
        None => Seq::empty(),
    }
}

/// The tokens of the line that holds the band `f` as the band number `number`.
pub open spec fn band_tokens(f: FilterView, number: nat) -> Seq<Seq<char>> {
    seq!["Filter"@, decimal(number).push(':'), switch_word(f.enabled)]
        + kind_tokens(f) + seq![
        "Fc"@,
        text_of(f.frequency),
        "Hz"@,
        "Gain"@,
        text_of(f.gain),
        "dB"@,
        "Q"@,
        text_of(f.q_factor),
    ] + bandwidth_tokens(f)
}

/// The lines of the text of a profile.
pub open spec fn profile_lines(p: ProfileView) -> Seq<Seq<char>> {
    seq![join_tokens(preamp_tokens(p.preamp_db), 0)] + Seq::new(
        p.filters.len(),
        |i: int| join_tokens(band_tokens(p.filters[i], (i + 1) as nat), 0),
    )
}

/// Whether a profile is read back from its text as it is: each of its numbers
/// is a number as a profile writes it, and each of its bands is of a kind that
/// has a word.
pub open spec fn is_writable(p: ProfileView) -> bool {
    &&& p.well_formed()
    &&& forall|i: int| 0 <= i < p.filters.len() ==> !((#[trigger] p.filters[i]).filter_type is Unknown)
}

/// The text of a profile.
pub open spec fn render_profile(p: ProfileView) -> Seq<char> {
    join_lines(profile_lines(p), 0)
}

/// The digits of `n` in base ten.
pub fn decimal_chars(n: usize) -> (r: Vec<char>)
    ensures
        r@ == decimal(n as nat),
    decreases n,
{
    if n < 10 {
        let mut r: Vec<char> = Vec::new();
        r.push(digit_char(n as u8));
        assert(r@ =~= decimal(n as nat));
        r
    } else {
        let mut r = decimal_chars(n / 10);
        r.push(digit_char((n % 10) as u8));
        r
    }
}

/// The character of the digit `d`.
fn digit_char(d: u8) -> (r: char)
    requires
        d < 10,
    ensures
        r == (0x30 + d) as char,
{
    (0x30 + d) as char
}

/// Writes the line of the gain before the bands behind `out`.
fn write_preamp(out: &mut Vec<char>, profile: &EqProfile)
    ensures
        final(out)@ == old(out)@ + join_tokens(preamp_tokens(profile@.preamp_db), 0) + seq!['\n'],
{
    let mut ts: Vec<Vec<char>> = Vec::new();
    ts.push(chars_of("Preamp:"));
    ts.push(profile.preamp_db.chars());
    ts.push(chars_of("dB"));
    assert(texts(ts@) =~= preamp_tokens(profile@.preamp_db));
    write_tokens(out, &ts);
    out.push('\n');
}

/// Writes the line of the band `band`, as the band number `number`, behind `out`.
fn write_band(out: &mut Vec<char>, band: &Filter, number: usize)
    ensures
        final(out)@ == old(out)@ + join_tokens(band_tokens(band@, number as nat), 0) + seq!['\n'],
{
    let mut label = decimal_chars(number);
    label.push(':');
    let mut ts: Vec<Vec<char>> = Vec::new();
    ts.push(chars_of("Filter"));
    ts.push(label);
    if band.enabled {
        ts.push(chars_of("ON"));
    } else {
        ts.push(chars_of("OFF"));
    }
    match &band.filter_type {
        FilterType::Unknown(_) => {},
        kind => {
            ts.push(chars_of(kind.word()));
        },
    }
    ts.push(chars_of("Fc"));
    ts.push(band.frequency.chars());
    ts.push(chars_of("Hz"));
    ts.push(chars_of("Gain"));
    ts.push(band.gain.chars());
    ts.push(chars_of("dB"));
    ts.push(chars_of("Q"));
    ts.push(band.q_factor.chars());
    match &band.bandwidth {
        Some(b) => {
            ts.push(chars_of("BW"));
            ts.push(b.chars());
        },
        None => {},
    }
    assert(texts(ts@) =~= band_tokens(band@, number as nat));
    write_tokens(out, &ts);
    out.push('\n');
}

impl Filter {
    /// Whether the band is of a kind that has a word. The numbers of a band
    /// are always numbers as a profile writes them.
    pub fn is_writable(&self) -> (r: bool)
        ensures
            r == !(self@.filter_type is Unknown),
            self@.well_formed(),
    {
        proof {
            use_type_invariant(&self.frequency);
            use_type_invariant(&self.gain);
            use_type_invariant(&self.q_factor);
            match &self.bandwidth {
                Some(b) => {
                    use_type_invariant(b);
                },
                None => {},
            }
        }
        match &self.filter_type {
            FilterType::Unknown(_) => false,
            _ => true,
        }
    }
}

impl EqProfile {
    /// Whether the profile is read back from its text as it is: whether each
    /// of its bands is of a kind that has a word.
    pub fn is_writable(&self) -> (r: bool)
        ensures
            r == is_writable(self@),
            self@.well_formed(),
    {
        proof {
            use_type_invariant(&self.preamp_db);
        }
        let mut all = true;
        let mut i: usize = 0;
        while i < self.filters.len()
            invariant
                i <= self.filters.len(),
                self@.filters.len() == self.filters.len(),
                forall|k: int| 0 <= k < i ==> (#[trigger] self@.filters[k]).well_formed(),
                all == (forall|k: int|
                    0 <= k < i ==> !((#[trigger] self@.filters[k]).filter_type is Unknown)),
            decreases self.filters.len() - i,
        {
            let band = &self.filters[i];
            assert(self@.filters[i as int] == band@);
            if !band.is_writable() {
                all = false;
            }
            i += 1;
        }
        all
    }

    /// Writes the profile as text: the line of the gain before the bands, and
    /// then one line for each band, in order.
    pub fn to_text(&self) -> (text: String)
        ensures
            text@ == render_profile(self@),
    {
        let mut out: Vec<char> = Vec::new();
        let ghost ls = profile_lines(self@);
        write_preamp(&mut out, self);
        assert(out@ + join_lines(ls, 1) =~= join_lines(ls, 0));
        let mut i: usize = 0;
        while i < self.filters.len()
            invariant
                i <= self.filters.len(),
                ls == profile_lines(self@),
                ls.len() == self.filters.len() + 1,
                out@ + join_lines(ls, i + 1) == join_lines(ls, 0),
            decreases self.filters.len() - i,
        {
            let ghost before = out@;
            let band = &self.filters[i];
            assert(self@.filters[i as int] == band@);
            write_band(&mut out, band, i + 1);
            assert(ls[i + 1] == join_tokens(band_tokens(band@, (i + 1) as nat), 0));
            assert(before + (ls[i + 1] + seq!['\n'] + join_lines(ls, i + 2)) =~= out@ + join_lines(
                ls,
                i + 2,
            ));
            i += 1;
        }
        assert(out@ + Seq::<char>::empty() =~= out@);
        string_of(out.as_slice())
    }
}

} // verus!
