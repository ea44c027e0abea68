use eq_layer::cascade::{compile_plan, supports, Engine};
use eq_layer::eq::{
    kind_of_token, parse_filter_line, EqParseError, EqProfile, Field, Filter, FilterType,
};
use eq_layer::eq::{field_of_upper, kind_of_upper};
use eq_layer::number::{is_float, Number};
use eq_layer::render::decimal_chars;
use eq_layer::text::{
    chars_of, eq_text, is_space_char, split_lines, split_tokens, starts_text, trim_line,
};

fn chars(text: &str) -> Vec<char> {
    text.chars().collect()
}

fn text(chars: &[char]) -> String {
    chars.iter().collect()
}

fn texts(slices: Vec<&[char]>) -> Vec<String> {
    slices.into_iter().map(text).collect()
}

fn value(n: &Number) -> f64 {
    std::str::from_utf8(n.as_bytes()).unwrap().parse().unwrap()
}

fn number(text: &str) -> Number {
    Number::parse(text).unwrap()
}

#[test]
fn test_eq_config_parser() {
    let config_str = "
Preamp: 0.0 dB
Filter 1: ON PK Fc 21 Hz Gain 2.3 dB Q 3.500
Filter 2: ON PK Fc 150 Hz Gain -3.4 dB Q 0.600
Filter 3: ON PK Fc 690 Hz Gain 2.2 dB Q 3.100
Filter 4: ON PK Fc 1400 Hz Gain -1.2 dB Q 3.900
Filter 5: ON PK Fc 1900 Hz Gain -3.2 dB Q 4.400
Filter 6: ON PK Fc 10200 Hz Gain 4.0 dB Q 0.300
Filter 7: ON PK Fc 18974 Hz Gain 4.0 dB Q 1.100
Filter 8: ON PK Fc 20000 Hz Gain 0.0 dB Q 0.710
";
    let profile: EqProfile = EqProfile::from_str(config_str).unwrap();
    assert_eq!(value(&profile.preamp_db), 0.0);
    assert_eq!(profile.filters.len(), 8);
    assert_eq!(profile.filters[0].filter_type, FilterType::Peaking);
    assert_eq!(value(&profile.filters[0].frequency), 21.0);
    assert_eq!(value(&profile.filters[0].gain), 2.3);
    assert_eq!(value(&profile.filters[0].q_factor), 3.5);
    println!("Profile:{:?}", profile);
}

#[test]
fn one_peaking_band_with_preamp() {
    let text = "Preamp: -1.0 dB\nFilter 1: ON PK Fc 100 Hz Gain 3.0 dB Q 1.41\n";
    let profile = EqProfile::from_str(text).unwrap();
    assert_eq!(value(&profile.preamp_db), -1.0);
    assert_eq!(profile.filters.len(), 1);
    let band = &profile.filters[0];
    assert_eq!(band.filter_type, FilterType::Peaking);
    assert_eq!(value(&band.frequency), 100.0);
    assert_eq!(value(&band.gain), 3.0);
    assert_eq!(value(&band.q_factor), 1.41);
    assert!(band.enabled);
    assert!(band.bandwidth.is_none());
    assert_eq!(band.frequency.as_bytes(), b"100");
    assert_eq!(band.gain.as_bytes(), b"3.0");
}

#[test]
fn empty_text_is_the_default_profile() {
    let profile = EqProfile::from_str("").unwrap();
    assert_eq!(profile, EqProfile::default());
    assert_eq!(value(&profile.preamp_db), 0.0);
    assert!(profile.filters.is_empty());
}

#[test]
fn default_band() {
    let band = Filter::default();
    assert!(band.enabled);
    assert_eq!(band.filter_type, FilterType::Peaking);
    assert_eq!(value(&band.frequency), 1000.0);
    assert_eq!(value(&band.gain), 0.0);
    assert_eq!(value(&band.q_factor), 0.707);
    assert!(band.bandwidth.is_none());
}

#[test]
fn parsing_twice_gives_the_same_profile() {
    let text = "# test\nPreamp: -2.5 dB\nFilter 1: OFF LSC Fc 80 Hz Gain -3 dB Q 0.7 BW 2\nFilter 2: ON HP Fc 30 Hz Q 0.5\n";
    let first = EqProfile::from_str(text).unwrap();
    let second = EqProfile::from_str(text).unwrap();
    assert_eq!(first, second);
    assert_eq!(first.filters.len(), 2);
}

#[test]
fn bytes_and_str_agree() {
    let text = "Preamp: 1 dB\nFilter: ON PK Fc 10 Hz\n";
    assert_eq!(EqProfile::from_str(text), EqProfile::from_chars(&chars(text)));
}

#[test]
fn comments_blank_and_other_lines_are_passed_over() {
    let text = "\n   \n# Preamp: 5 dB\n  # Filter 1: ON PK Fc x\nChannel: L R\nPreamp: 2 dB\n\t\r\n";
    let profile = EqProfile::from_str(text).unwrap();
    assert_eq!(value(&profile.preamp_db), 2.0);
    assert!(profile.filters.is_empty());
}

#[test]
fn a_line_is_known_by_how_it_begins() {
    let profile = EqProfile::from_str("Preamp 5\nPreamp : 5\nPREAMP:5\n").unwrap();
    assert_eq!(value(&profile.preamp_db), 5.0);
    assert!(EqProfile::from_str("Pre-amp: x\nFilte 1: Fc x\n{ilter Fc x\n@REAMP: x").is_ok());
    let profile = EqProfile::from_str("FiLtErS: Fc 5\nfilter").unwrap();
    assert_eq!(profile.filters.len(), 2);
    assert_eq!(value(&profile.filters[0].frequency), 5.0);
    assert_eq!(profile.filters[1], Filter::default());
    assert_eq!(parse_filter_line("g@in 5 GAINS 6 gai 7").unwrap(), Filter::default());
}

#[test]
fn key_words_are_read_without_regard_to_case() {
    let text = "  preamp: 3 db\n  filter 1: off lowshelf fc 50 hz gain 1.5 db q 2 bw 0.5\n";
    let profile = EqProfile::from_str(text).unwrap();
    assert_eq!(value(&profile.preamp_db), 3.0);
    let band = &profile.filters[0];
    assert!(!band.enabled);
    assert_eq!(band.filter_type, FilterType::LowShelf);
    assert_eq!(value(&band.frequency), 50.0);
    assert_eq!(value(&band.gain), 1.5);
    assert_eq!(value(&band.q_factor), 2.0);
    assert_eq!(value(band.bandwidth.as_ref().unwrap()), 0.5);
}

#[test]
fn the_last_preamp_line_wins() {
    let profile = EqProfile::from_str("Preamp: 1 dB\nPreamp: -4 dB\n").unwrap();
    assert_eq!(value(&profile.preamp_db), -4.0);
}

#[test]
fn preamp_value_may_follow_the_colon_directly() {
    let profile = EqProfile::from_str("Preamp:-6.5 dB").unwrap();
    assert_eq!(value(&profile.preamp_db), -6.5);
}

#[test]
fn preamp_line_without_a_value_changes_nothing() {
    let profile = EqProfile::from_str("Preamp:\n").unwrap();
    assert_eq!(value(&profile.preamp_db), 0.0);
}

#[test]
fn preamp_value_that_is_no_number_fails() {
    assert_eq!(EqProfile::from_str("Preamp: loud dB"), Err(EqParseError::ParseFloatError));
    assert_eq!(EqProfile::from_str("Preamp:x"), Err(EqParseError::ParseFloatError));
}

#[test]
fn a_value_that_is_no_number_fails_the_whole_text() {
    let good = "Preamp: 1 dB\nFilter 1: ON PK Fc 100 Hz Gain 1 dB Q 1\n";
    for bad in [
        "Filter 2: ON PK Fc abc Hz Gain 1 dB Q 1\n",
        "Filter 2: ON PK Fc 100 Hz Gain 1dB Q 1\n",
        "Filter 2: ON PK Fc 100 Hz Gain 1 dB Q --1\n",
        "Filter 2: ON PK Fc 100 Hz Gain 1 dB Q 1 BW wide\n",
    ] {
        let text = format!("{}{}", good, bad);
        assert_eq!(EqProfile::from_str(&text), Err(EqParseError::ParseFloatError));
    }
}

#[test]
fn tokens_that_mean_nothing_are_passed_over() {
    let band = parse_filter_line("Filter 7: ON XYZ Fc 250 Hertz please Gain 1 dB").unwrap();
    assert!(band.enabled);
    assert_eq!(band.filter_type, FilterType::Peaking);
    assert_eq!(value(&band.frequency), 250.0);
    assert_eq!(value(&band.gain), 1.0);
    assert_eq!(value(&band.q_factor), 0.707);
}

#[test]
fn a_key_word_at_the_end_of_a_line_changes_nothing() {
    let band = parse_filter_line("Filter 1: ON PK Fc 250 Hz Gain").unwrap();
    assert_eq!(value(&band.frequency), 250.0);
    assert_eq!(value(&band.gain), 0.0);
}

#[test]
fn a_key_word_takes_the_next_token_whatever_it_is() {
    assert_eq!(parse_filter_line("Filter 1: Fc ON"), Err(EqParseError::ParseFloatError));
    let band = parse_filter_line("Filter 1: OFF Gain 2 ON").unwrap();
    assert!(band.enabled);
    assert_eq!(value(&band.gain), 2.0);
}

#[test]
fn later_tokens_replace_earlier_ones() {
    let band = parse_filter_line("Filter ON OFF PK HSC Fc 1 Fc 2").unwrap();
    assert!(!band.enabled);
    assert_eq!(band.filter_type, FilterType::HighShelf);
    assert_eq!(value(&band.frequency), 2.0);
}

#[test]
fn every_kind_has_its_words() {
    let cases = [
        ("PK", FilterType::Peaking),
        ("peak", FilterType::Peaking),
        ("LSC", FilterType::LowShelf),
        ("LowShelf", FilterType::LowShelf),
        ("HSC", FilterType::HighShelf),
        ("HIGHSHELF", FilterType::HighShelf),
        ("lp", FilterType::LowPass),
        ("LowPass", FilterType::LowPass),
        ("HP", FilterType::HighPass),
        ("highpass", FilterType::HighPass),
        ("BP", FilterType::BandPass),
        ("NO", FilterType::Notch),
        ("Notch", FilterType::Notch),
        ("AP", FilterType::AllPass),
    ];
    for (word, kind) in cases {
        assert_eq!(FilterType::from_str(word), Ok(kind.clone()));
        assert_eq!(kind_of_token(&chars(word)), Some(kind.clone()));
        assert_eq!(kind_of_upper(&chars(&word.to_uppercase())), Some(kind));
    }
}

#[test]
fn a_word_that_names_no_kind_comes_back_in_the_error() {
    assert_eq!(
        FilterType::from_str("Comb"),
        Err(EqParseError::UnknownFilterType("Comb".to_string()))
    );
    assert_eq!(FilterType::from_str(""), Err(EqParseError::UnknownFilterType(String::new())));
    assert_eq!(kind_of_token(&chars("PKK")), None);
    assert_eq!(kind_of_upper(&chars("pk")), None);
    assert_eq!(kind_of_token(&chars("P")), None);
}

#[test]
fn labels_of_the_kinds() {
    assert_eq!(FilterType::Peaking.to_string(), "Peak");
    assert_eq!(FilterType::HighShelf.to_string(), "HighShelf");
    assert_eq!(FilterType::LowShelf.to_string(), "LowShelf");
    assert_eq!(FilterType::LowPass.to_string(), "Not Supported");
    assert_eq!(FilterType::Unknown("Comb".to_string()).to_string(), "Not Supported");
}

#[test]
fn words_of_the_kinds() {
    assert_eq!(FilterType::Peaking.word(), "PK");
    assert_eq!(FilterType::LowShelf.word(), "LSC");
    assert_eq!(FilterType::HighShelf.word(), "HSC");
    assert_eq!(FilterType::LowPass.word(), "LP");
    assert_eq!(FilterType::HighPass.word(), "HP");
    assert_eq!(FilterType::BandPass.word(), "BP");
    assert_eq!(FilterType::Notch.word(), "NO");
    assert_eq!(FilterType::AllPass.word(), "AP");
    assert_eq!(FilterType::Unknown("x".to_string()).word(), "");
}

#[test]
fn numbers_are_what_the_standard_library_reads() {
    let cases = [
        "0", "21", "2.3", "-3.4", "+4.0", "3.500", ".5", "5.", "-.5", "1e5", "1E5", "1e+5",
        "1.5e-3", ".5e1", "5.e1", "inf", "-inf", "+Infinity", "INFINITY", "nan", "NaN", "-nan",
        "", "+", "-", ".", "e5", "1e", "1e+", "1e5.0", "1.2.3", "--1", "1 ", " 1", "0x10", "1f",
        "infinit", "in", "nano", "1,5", "1_000", "+-1", ".e1", "-.", "1e1e1", "\u{661}",
    ];
    for text in cases {
        let expected = text.parse::<f64>().is_ok();
        assert_eq!(is_float(text.as_bytes()), expected, "{:?}", text);
        assert_eq!(Number::parse(text).is_some(), expected, "{:?}", text);
        assert_eq!(Number::from_bytes(text.as_bytes()).is_some(), expected, "{:?}", text);
        assert_eq!(Number::from_chars(&chars(text)).is_some(), expected, "{:?}", text);
    }
}

#[test]
fn a_number_keeps_its_text() {
    let n = number("3.500");
    assert_eq!(n.as_bytes(), b"3.500");
    assert_eq!(value(&n), 3.5);
    assert_eq!(n.clone(), n);
    assert!(Number::from_bytes(&[0x31, 0xff]).is_none());
    assert_eq!(n.chars(), chars("3.500"));
    assert_eq!(Number::from_chars(&chars("3.500")), Some(n));
}

#[test]
fn tokens_of_a_line() {
    let line = chars("  Filter 1:\tON\x0b PK\x0c\r");
    assert_eq!(texts(split_tokens(&line)), vec!["Filter", "1:", "ON", "PK"]);
    assert!(split_tokens(&chars("")).is_empty());
    assert!(split_tokens(&chars(" \t\n\u{a0}\u{3000}")).is_empty());
    assert_eq!(texts(split_tokens(&chars("a"))), vec!["a"]);
}

#[test]
fn lines_of_a_text() {
    assert_eq!(texts(split_lines(&chars("a\nb c\n\nd"))), vec!["a", "b c", "", "d"]);
    assert_eq!(texts(split_lines(&chars(""))), vec![""]);
    assert_eq!(texts(split_lines(&chars("a\n"))), vec!["a", ""]);
    assert_eq!(texts(split_lines(&chars("a\r\n"))), vec!["a\r", ""]);
    assert_eq!(texts(split_lines(&chars("a\u{2028}b"))), vec!["a\u{2028}b"]);
}

#[test]
fn white_space_is_what_the_standard_library_calls_so() {
    for code in 0..=0x10ffffu32 {
        if let Some(c) = char::from_u32(code) {
            assert_eq!(is_space_char(c), c.is_whitespace(), "{:x}", code);
        }
    }
}

#[test]
fn tokens_and_trimmed_lines_are_what_the_standard_library_gives() {
    let cases = [
        "",
        " ",
        "a",
        "  a  b ",
        "Filter 1:\u{a0}ON\u{2003}PK",
        "\u{a0}Filter\u{3000}",
        "x\u{a0}Fc 1",
        "\u{85}\u{1680}a\u{2028}b\u{2029}c\u{202f}d\u{205f}e\u{feff}f\u{200b}g\u{180e}h ",
        "\t\u{b}\u{c}\r a \u{2000}\u{200a}",
        "caf\u{e9} \u{df}",
    ];
    for case in cases {
        let all = chars(case);
        let expected: Vec<&str> = case.split_whitespace().collect();
        assert_eq!(texts(split_tokens(&all)), expected, "{:?}", case);
        assert_eq!(text(trim_line(&all)), case.trim(), "{:?}", case);
        assert_eq!(chars_of(case), all);
    }
}

#[test]
fn texts_are_compared_as_they_are() {
    assert!(eq_text(&chars("GAIN"), "GAIN"));
    assert!(!eq_text(&chars("gain"), "GAIN"));
    assert!(!eq_text(&chars("GAINS"), "GAIN"));
    assert!(!eq_text(&chars("GAI"), "GAIN"));
    assert!(eq_text(&chars(""), ""));
    assert!(starts_text(&chars("PREAMP:-1"), "PREAMP:"));
    assert!(starts_text(&chars("FILTER"), "FILTER"));
    assert!(!starts_text(&chars("FILTE"), "FILTER"));
    assert!(!starts_text(&chars("filter"), "FILTER"));
    assert_eq!(field_of_upper(&chars("FC")), Some(Field::Frequency));
    assert_eq!(field_of_upper(&chars("GAIN")), Some(Field::Gain));
    assert_eq!(field_of_upper(&chars("Q")), Some(Field::QFactor));
    assert_eq!(field_of_upper(&chars("BW")), Some(Field::Bandwidth));
    assert_eq!(field_of_upper(&chars("fc")), None);
}

#[test]
fn letter_case_is_folded_as_the_standard_library_folds_it() {
    assert_eq!(FilterType::from_str("l\u{17f}c"), Ok(FilterType::LowShelf));
    assert_eq!(FilterType::from_str("h\u{131}ghpass"), Ok(FilterType::HighPass));
    assert_eq!(FilterType::from_str("LOW\u{17f}HELF"), Ok(FilterType::LowShelf));
    assert_eq!(
        FilterType::from_str("\u{3c0}k"),
        Err(EqParseError::UnknownFilterType("\u{3c0}k".to_string()))
    );
    let band = parse_filter_line("Filter o\u{fb00} h\u{17f}c \u{fb01}lter ga\u{131}n 3").unwrap();
    assert!(!band.enabled);
    assert_eq!(band.filter_type, FilterType::HighShelf);
    assert_eq!(value(&band.gain), 3.0);
    let profile = EqProfile::from_str("\u{fb01}lter 1: Fc 5\nF\u{131}lter 2: Fc 6\n").unwrap();
    assert_eq!(profile.filters.len(), 2);
    assert_eq!(value(&profile.filters[1].frequency), 6.0);
    for word in ["pk", "l\u{17f}c", "\u{fb01}lter", "stra\u{df}e", "\u{149}", "\u{3c3}\u{3c2}"] {
        let by_library = FilterType::from_str(word).is_ok();
        let upper = word.to_uppercase();
        let by_std = ["PK", "PEAK", "LSC", "LOWSHELF", "HSC", "HIGHSHELF", "LP", "LOWPASS", "HP",
            "HIGHPASS", "BP", "NO", "NOTCH", "AP"]
            .contains(&upper.as_str());
        assert_eq!(by_library, by_std, "{:?}", word);
    }
}

#[test]
fn tokens_are_cut_at_every_white_space() {
    assert_eq!(EqProfile::from_str("FILTER FC\u{a0}x"), Err(EqParseError::ParseFloatError));
    let profile = EqProfile::from_str("\u{a0}Filter 1:").unwrap();
    assert_eq!(profile.filters.len(), 1);
    assert_eq!(
        parse_filter_line("x\u{a0}Fc 1").unwrap(),
        parse_filter_line("Fc 1").unwrap()
    );
    assert_eq!(value(&parse_filter_line("x\u{a0}Fc 1").unwrap().frequency), 1.0);
    let profile = EqProfile::from_str("\u{3000}Preamp:\u{2003}-3\u{a0}dB\u{2028}").unwrap();
    assert_eq!(value(&profile.preamp_db), -3.0);
    assert!(EqProfile::from_str("\u{a0}# Filter Fc x").unwrap().filters.is_empty());
    assert_eq!(
        EqProfile::from_str("Filter Fc \u{661}"),
        Err(EqParseError::ParseFloatError)
    );
    assert_eq!(
        EqProfile::from_str("Filter Fc 1\u{e9}"),
        Err(EqParseError::ParseFloatError)
    );
}

#[test]
fn text_of_a_profile() {
    let mut profile = EqProfile::default();
    profile.preamp_db = number("-1.0");
    let mut first = Filter::default();
    first.set(Field::Frequency, number("100"));
    first.set(Field::Gain, number("3.0"));
    first.set(Field::QFactor, number("1.41"));
    let mut second = Filter::default();
    second.enabled = false;
    second.filter_type = FilterType::HighShelf;
    second.set(Field::Bandwidth, number("2"));
    profile.filters.push(first);
    profile.filters.push(second);
    let text = profile.to_text();
    assert_eq!(
        text.as_str(),
        "Preamp: -1.0 dB\n\
         Filter 1: ON PK Fc 100 Hz Gain 3.0 dB Q 1.41\n\
         Filter 2: OFF HSC Fc 1000.0 Hz Gain 0.0 dB Q 0.707 BW 2\n"
    );
}

#[test]
fn a_profile_is_read_back_from_its_text() {
    let text = "Preamp: -2.5 dB\n\
                Filter 1: OFF LSC Fc 80 Hz Gain -3 dB Q 0.7 BW 2\n\
                Filter 2: ON HP Fc 3e1 Hz Q .5\n\
                Filter 3: ON NO Fc 50 Hz Gain inf dB Q 30\n\
                Filter 4: ON AP Fc 1000 Hz\n\
                Filter 5: ON BP Fc 1000 Hz\n\
                Filter 6: ON LP Fc 1000 Hz\n\
                Filter 7: ON HSC Fc 1000 Hz\n\
                Filter 8: ON PK Fc 1000 Hz\n\
                Filter 9: ON PK Fc 1000 Hz\n\
                Filter 10: ON PK Fc 1000 Hz\n";
    let profile = EqProfile::from_str(text).unwrap();
    assert_eq!(profile.filters.len(), 10);
    assert!(profile.is_writable());
    let written = profile.to_text();
    let again = EqProfile::from_str(&written).unwrap();
    assert_eq!(again, profile);
    assert_eq!(again.to_text(), written);
}

#[test]
fn a_band_of_unknown_kind_is_read_back_as_peaking() {
    let mut profile = EqProfile::default();
    let mut band = Filter::default();
    band.filter_type = FilterType::Unknown("Comb".to_string());
    assert!(!band.is_writable());
    profile.filters.push(band);
    assert!(!profile.is_writable());
    let again = EqProfile::from_str(&profile.to_text()).unwrap();
    assert_eq!(again.filters[0].filter_type, FilterType::Peaking);
}

#[test]
fn digits_of_a_number() {
    assert_eq!(text(&decimal_chars(0)), "0");
    assert_eq!(text(&decimal_chars(7)), "7");
    assert_eq!(text(&decimal_chars(10)), "10");
    assert_eq!(text(&decimal_chars(1905)), "1905");
    assert_eq!(text(&decimal_chars(usize::MAX)), usize::MAX.to_string());
}

#[test]
fn clones_are_equal() {
    let profile =
        EqProfile::from_str("Preamp: 1 dB\nFilter 1: OFF AP Fc 5 Hz BW 1\nFilter 2: ON\n").unwrap();
    assert_eq!(profile.clone(), profile);
    assert_eq!(profile.filters[0].clone(), profile.filters[0]);
    let unknown = FilterType::Unknown("Comb".to_string());
    assert_eq!(unknown.clone(), unknown);
}

#[test]
fn an_engine_compiles_the_enabled_bands_in_order() {
    let text = "Filter 1: ON PK Fc 100 Hz\n\
                Filter 2: OFF PK Fc 200 Hz\n\
                Filter 3: ON LSC Fc 300 Hz\n\
                Filter 4: OFF HP Fc 400 Hz\n\
                Filter 5: ON HP Fc 500 Hz\n";
    let profile = EqProfile::from_str(text).unwrap();
    assert_eq!(compile_plan(&profile, Engine::Scalar), vec![0, 2, 4]);
    assert_eq!(compile_plan(&profile, Engine::Vectorized), vec![0, 2, 4]);
    assert!(compile_plan(&EqProfile::default(), Engine::Scalar).is_empty());
}

#[test]
fn an_engine_passes_over_the_kinds_it_has_no_coefficients_for() {
    let text = "Filter 1: ON AP Fc 100 Hz\n\
                Filter 2: ON BP Fc 200 Hz\n\
                Filter 3: ON NO Fc 300 Hz\n\
                Filter 4: ON LP Fc 400 Hz\n\
                Filter 5: OFF AP Fc 500 Hz\n";
    let mut profile = EqProfile::from_str(text).unwrap();
    let mut unknown = Filter::default();
    unknown.filter_type = FilterType::Unknown("Comb".to_string());
    profile.filters.push(unknown);
    assert_eq!(compile_plan(&profile, Engine::Scalar), vec![0, 3]);
    assert_eq!(compile_plan(&profile, Engine::Vectorized), vec![3]);
}

#[test]
fn kinds_that_the_engines_have_coefficients_for() {
    for kind in [
        FilterType::Peaking,
        FilterType::LowShelf,
        FilterType::HighShelf,
        FilterType::LowPass,
        FilterType::HighPass,
    ] {
        assert!(supports(Engine::Scalar, &kind));
        assert!(supports(Engine::Vectorized, &kind));
    }
    assert!(supports(Engine::Scalar, &FilterType::AllPass));
    assert!(!supports(Engine::Vectorized, &FilterType::AllPass));
    for kind in [FilterType::BandPass, FilterType::Notch, FilterType::Unknown(String::new())] {
        assert!(!supports(Engine::Scalar, &kind));
        assert!(!supports(Engine::Vectorized, &kind));
    }
}
