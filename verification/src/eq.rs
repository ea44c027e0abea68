//! The equalizer profile: its bands, and the text format that holds it.
//!
//! A profile text is read line by line. Each line is taken as its tokens, the
//! runs of characters between white space:
//!
//! ```text
//! Preamp: <number> dB
//! Filter <n>: <ON|OFF> <TYPE> Fc <number> Hz Gain <number> dB Q <number> [BW <number>]
//! ```
//!
//! Tokens are cut at white space as Unicode defines it, and key words are read
//! without regard to letter case, as Unicode folds it. A token that is no key
//! word, no filter type and not the value of a key word is passed over.

use crate::number::{ascii_bytes, is_float_literal, is_float_text, Number};
use crate::text::{
    begins_with, chars_of, eq_text, is_word, lines, split_lines, split_tokens, starts_text,
    to_upper, tokens, trim, trim_line, upper_of, views,
};
use vstd::prelude::*;

verus! {

/// The kind of a band.
#[derive(Debug, PartialEq, Eq)]
pub enum FilterType {
    Peaking,
    LowShelf,
    HighShelf,
    LowPass,
    HighPass,
    BandPass,
    Notch,
    AllPass,
    /// A kind that this library does not know, with the word that named it.
    Unknown(String),
}

/// The kind of a band, as contracts see it.
pub enum FilterKind {
    Peaking,
    LowShelf,
    HighShelf,
    LowPass,
    HighPass,
    BandPass,
    Notch,
    AllPass,
    Unknown(Seq<char>),
}

impl View for FilterType {
    type V = FilterKind;

    open spec fn view(&self) -> FilterKind {
        match self {
            FilterType::Peaking => FilterKind::Peaking,
            FilterType::LowShelf => FilterKind::LowShelf,
            FilterType::HighShelf => FilterKind::HighShelf,
            FilterType::LowPass => FilterKind::LowPass,
            FilterType::HighPass => FilterKind::HighPass,
            FilterType::BandPass => FilterKind::BandPass,
            FilterType::Notch => FilterKind::Notch,
            FilterType::AllPass => FilterKind::AllPass,
            FilterType::Unknown(raw) => FilterKind::Unknown(raw@),
        }
    }
}

/// The kind that the word `upper`, given in capitals, names, if it names one.
pub open spec fn kind_of_word(upper: Seq<char>) -> Option<FilterKind> {
    if upper == "PK"@ || upper == "PEAK"@ {
        Some(FilterKind::Peaking)
    } else if upper == "LSC"@ || upper == "LOWSHELF"@ {
        Some(FilterKind::LowShelf)
    } else if upper == "HSC"@ || upper == "HIGHSHELF"@ {
        Some(FilterKind::HighShelf)
    } else if upper == "LP"@ || upper == "LOWPASS"@ {
        Some(FilterKind::LowPass)
    } else if upper == "HP"@ || upper == "HIGHPASS"@ {
        Some(FilterKind::HighPass)
    } else if upper == "BP"@ {
        Some(FilterKind::BandPass)
    } else if upper == "NO"@ || upper == "NOTCH"@ {
        Some(FilterKind::Notch)
    } else if upper == "AP"@ {
        Some(FilterKind::AllPass)
    } else {
        None
    }
}

/// The kind that a token names, letter case aside, if it names one: the kind
/// that its upper-case form names.
pub open spec fn named_kind(token: Seq<char>) -> Option<FilterKind> {
    kind_of_word(upper_of(token))
}

impl FilterKind {
    /// The name under which a kind is shown.
    pub open spec fn label(self) -> Seq<char> {
        match self {
            FilterKind::Peaking => "Peak"@,
            FilterKind::HighShelf => "HighShelf"@,
            FilterKind::LowShelf => "LowShelf"@,
            _ => "Not Supported"@,
        }
    }

    /// The word that writes a kind into a profile text. An unknown kind has none.
    pub open spec fn word(self) -> Seq<char> {
        match self {
            FilterKind::Peaking => "PK"@,
            FilterKind::LowShelf => "LSC"@,
            FilterKind::HighShelf => "HSC"@,
            FilterKind::LowPass => "LP"@,
            FilterKind::HighPass => "HP"@,
            FilterKind::BandPass => "BP"@,
            FilterKind::Notch => "NO"@,
            FilterKind::AllPass => "AP"@,
            FilterKind::Unknown(_) => Seq::empty(),
        }
    }
}

/// Why a text was not read.
#[derive(Debug, PartialEq, Eq)]
pub enum EqParseError {
    /// The value of a key word is no number.
    ParseFloatError,
    /// A word that names no kind of band, with the word.
    UnknownFilterType(String),
}

/// The kind that the word `upper`, given in capitals, names, if it names one.
pub fn kind_of_upper(upper: &[char]) -> (r: Option<FilterType>)
    ensures
        match kind_of_word(upper@) {
            Some(k) => r matches Some(t) && t@ == k,
            None => r is None,
        },
{
    if eq_text(upper, "PK") || eq_text(upper, "PEAK") {
        Some(FilterType::Peaking)
    } else if eq_text(upper, "LSC") || eq_text(upper, "LOWSHELF") {
        Some(FilterType::LowShelf)
    } else if eq_text(upper, "HSC") || eq_text(upper, "HIGHSHELF") {
        Some(FilterType::HighShelf)
    } else if eq_text(upper, "LP") || eq_text(upper, "LOWPASS") {
        Some(FilterType::LowPass)
    } else if eq_text(upper, "HP") || eq_text(upper, "HIGHPASS") {
        Some(FilterType::HighPass)
    } else if eq_text(upper, "BP") {
        Some(FilterType::BandPass)
    } else if eq_text(upper, "NO") || eq_text(upper, "NOTCH") {
        Some(FilterType::Notch)
    } else if eq_text(upper, "AP") {
        Some(FilterType::AllPass)
    } else {
        None
    }
}

/// The kind that `token` names, letter case aside, if it names one.
pub fn kind_of_token(token: &[char]) -> (r: Option<FilterType>)
    ensures
        match named_kind(token@) {
            Some(k) => r matches Some(t) && t@ == k,
            None => r is None,
        },
{
    let upper = to_upper(token);
    kind_of_upper(upper.as_slice())
}

impl FilterType {
    /// The kind that `s` names, letter case aside. A word that names none is
    /// handed back in the error.
    pub fn from_str(s: &str) -> (r: Result<FilterType, EqParseError>)
        ensures
            match named_kind(s@) {
                Some(k) => r matches Ok(t) && t@ == k,
                None => r matches Err(EqParseError::UnknownFilterType(raw)) && raw@ == s@,
            },
    {
        let chars = chars_of(s);
        match kind_of_token(chars.as_slice()) {
            Some(t) => Ok(t),
            None => Err(EqParseError::UnknownFilterType(s.to_owned())),
        }
    }

    /// The name under which the kind is shown.
    pub fn to_string(&self) -> (r: String)
        ensures
            r@ == self@.label(),
    {
        match self {
            FilterType::Peaking => "Peak".to_owned(),
            FilterType::HighShelf => "HighShelf".to_owned(),
            FilterType::LowShelf => "LowShelf".to_owned(),
            _ => "Not Supported".to_owned(),
        }
    }

    /// The word that writes the kind into a profile text; empty for an unknown kind.
    pub fn word(&self) -> (r: &'static str)
        ensures
            r@ == self@.word(),
            r.is_ascii(),
    {
        proof {
            reveal_strlit("PK");
            reveal_strlit("LSC");
            reveal_strlit("HSC");
            reveal_strlit("LP");
            reveal_strlit("HP");
            reveal_strlit("BP");
            reveal_strlit("NO");
            reveal_strlit("AP");
            reveal_strlit("");
        }
        match self {
            FilterType::Peaking => "PK",
            FilterType::LowShelf => "LSC",
            FilterType::HighShelf => "HSC",
            FilterType::LowPass => "LP",
            FilterType::HighPass => "HP",
            FilterType::BandPass => "BP",
            FilterType::Notch => "NO",
            FilterType::AllPass => "AP",
            FilterType::Unknown(_) => "",
        }
    }
}

impl Clone for FilterType {
    fn clone(&self) -> (r: Self)
        ensures
            r@ == self@,
    {
        match self {
            FilterType::Peaking => FilterType::Peaking,
            FilterType::LowShelf => FilterType::LowShelf,
            FilterType::HighShelf => FilterType::HighShelf,
            FilterType::LowPass => FilterType::LowPass,
            FilterType::HighPass => FilterType::HighPass,
            FilterType::BandPass => FilterType::BandPass,
            FilterType::Notch => FilterType::Notch,
            FilterType::AllPass => FilterType::AllPass,
            FilterType::Unknown(raw) => FilterType::Unknown(raw.clone()),
        }
    }
}

/// One band of a profile.
#[derive(Debug, PartialEq, Eq)]
pub struct Filter {
    pub enabled: bool,
    pub filter_type: FilterType,
    /// The centre or corner frequency, in hertz.
    pub frequency: Number,
    /// The gain, in decibels.
    pub gain: Number,
    pub q_factor: Number,
    pub bandwidth: Option<Number>,
}

/// A band, as contracts see it: each number is the bytes of its literal.
pub struct FilterView {
    pub enabled: bool,
    pub filter_type: FilterKind,
    pub frequency: Seq<u8>,
    pub gain: Seq<u8>,
    pub q_factor: Seq<u8>,
    pub bandwidth: Option<Seq<u8>>,
}

/// The numbers of a band that a key word sets.
#[derive(Debug, Clone, Copy, PartialEq, Eq)]
pub enum Field {
    Frequency,
    Gain,
    QFactor,
    Bandwidth,
}

impl FilterView {
    /// The band that a line starts from: enabled, peaking, 1000 Hz, 0 dB, Q 0.707,
    /// no bandwidth.
    pub open spec fn initial() -> FilterView {
        FilterView {
            enabled: true,
            filter_type: FilterKind::Peaking,
            frequency: ascii_bytes("1000.0"@),
            gain: ascii_bytes("0.0"@),
            q_factor: ascii_bytes("0.707"@),
            bandwidth: None,
        }
    }

    pub open spec fn with_enabled(self, enabled: bool) -> FilterView {
        FilterView { enabled, ..self }
    }

    pub open spec fn with_kind(self, kind: FilterKind) -> FilterView {
        FilterView { filter_type: kind, ..self }
    }

    pub open spec fn with_value(self, field: Field, value: Seq<u8>) -> FilterView {
        match field {
            Field::Frequency => FilterView { frequency: value, ..self },
            Field::Gain => FilterView { gain: value, ..self },
            Field::QFactor => FilterView { q_factor: value, ..self },
            Field::Bandwidth => FilterView { bandwidth: Some(value), ..self },
        }
    }

    /// Whether each number of the band is a number as a profile writes it.
    pub open spec fn well_formed(self) -> bool {
        &&& is_float_literal(self.frequency)
        &&& is_float_literal(self.gain)
        &&& is_float_literal(self.q_factor)
        &&& self.bandwidth matches Some(b) ==> is_float_literal(b)
    }
}

impl View for Filter {
    type V = FilterView;

    open spec fn view(&self) -> FilterView {
        FilterView {
            enabled: self.enabled,
            filter_type: self.filter_type@,
            frequency: self.frequency@,
            gain: self.gain@,
            q_factor: self.q_factor@,
            bandwidth: match self.bandwidth {
                Some(b) => Some(b@),
                None => None,
            },
        }
    }
}

/// The numbers that a band and a profile start from are numbers as a profile
/// writes them.
pub proof fn lemma_initial_numbers()
    ensures
        is_float_literal(ascii_bytes("1000.0"@)),
        is_float_literal(ascii_bytes("0.0"@)),
        is_float_literal(ascii_bytes("0.707"@)),
        FilterView::initial().well_formed(),
        ProfileView::initial().well_formed(),
{
    reveal_strlit("1000.0");
    reveal_strlit("0.0");
    reveal_strlit("0.707");
    reveal_with_fuel(crate::number::digits_end, 8);
}

impl Default for Filter {
    fn default() -> (r: Self)
        ensures
            r@ == FilterView::initial(),
    {
        proof {
            lemma_initial_numbers();
            reveal_strlit("1000.0");
            reveal_strlit("0.0");
            reveal_strlit("0.707");
        }
        Filter {
            enabled: true,
            filter_type: FilterType::Peaking,
            frequency: Number::constant("1000.0"),
            gain: Number::constant("0.0"),
            q_factor: Number::constant("0.707"),
            bandwidth: None,
        }
    }
}

impl Clone for Filter {
    fn clone(&self) -> (r: Self)
        ensures
            r@ == self@,
    {
        Filter {
            enabled: self.enabled,
            filter_type: self.filter_type.clone(),
            frequency: self.frequency.clone(),
            gain: self.gain.clone(),
            q_factor: self.q_factor.clone(),
            bandwidth: match &self.bandwidth {
                Some(b) => Some(b.clone()),
                None => None,
            },
        }
    }
}

impl Filter {
    /// Sets the number that `field` names.
    pub fn set(&mut self, field: Field, value: Number)
        ensures
            final(self)@ == old(self)@.with_value(field, value@),
    {
        match field {
            Field::Frequency => {
                self.frequency = value;
            },
            Field::Gain => {
                self.gain = value;
            },
            Field::QFactor => {
                self.q_factor = value;
            },
            Field::Bandwidth => {
                self.bandwidth = Some(value);
            },
        }
    }
}

/// An equalizer profile: a gain before the bands, and the bands in the order in
/// which they are applied.
#[derive(Debug, PartialEq, Eq)]
pub struct EqProfile {
    /// The gain before the bands, in decibels.
    pub preamp_db: Number,
    pub filters: Vec<Filter>,
}

/// A profile, as contracts see it.
pub struct ProfileView {
    pub preamp_db: Seq<u8>,
    pub filters: Seq<FilterView>,
}

impl ProfileView {
    /// The profile that a text starts from: 0 dB before the bands, and no band.
    pub open spec fn initial() -> ProfileView {
        ProfileView { preamp_db: ascii_bytes("0.0"@), filters: Seq::empty() }
    }

    /// Whether each number of the profile is a number as a profile writes it.
    pub open spec fn well_formed(self) -> bool {
        &&& is_float_literal(self.preamp_db)
        &&& forall|i: int| 0 <= i < self.filters.len() ==> (#[trigger] self.filters[i]).well_formed()
    }
}

impl View for EqProfile {
    type V = ProfileView;

    open spec fn view(&self) -> ProfileView {
        ProfileView {
            preamp_db: self.preamp_db@,
            filters: Seq::new(self.filters@.len(), |i: int| self.filters@[i]@),
        }
    }
}

impl Default for EqProfile {
    fn default() -> (r: Self)
        ensures
            r@ == ProfileView::initial(),
    {
        proof {
            lemma_initial_numbers();
            reveal_strlit("0.0");
        }
        let r = EqProfile { preamp_db: Number::constant("0.0"), filters: Vec::new() };
        assert(r@.filters =~= Seq::empty());
        r
    }
}

impl Clone for EqProfile {
    fn clone(&self) -> (r: Self)
        ensures
            r@ == self@,
    {
        let mut filters: Vec<Filter> = Vec::new();
        let mut i: usize = 0;
        while i < self.filters.len()
            invariant
                i <= self.filters.len(),
                filters.len() == i,
                forall|k: int| 0 <= k < i ==> filters@[k]@ == self.filters@[k]@,
            decreases self.filters.len() - i,
        {
            filters.push(self.filters[i].clone());
            i += 1;
        }
        let r = EqProfile { preamp_db: self.preamp_db.clone(), filters };
        assert(r@.filters =~= self@.filters);
        r
    }
}

/// The number of a band that the key word `upper`, given in capitals, sets,
/// if it is such a key word.
pub open spec fn field_of_word(upper: Seq<char>) -> Option<Field> {
    if upper == "FC"@ {
        Some(Field::Frequency)
    } else if upper == "GAIN"@ {
        Some(Field::Gain)
    } else if upper == "Q"@ {
        Some(Field::QFactor)
    } else if upper == "BW"@ {
        Some(Field::Bandwidth)
    } else {
        None
    }
}

/// The number of a band that a key word sets, if `token` is such a key word,
/// letter case aside.
pub open spec fn named_field(token: Seq<char>) -> Option<Field> {
    field_of_word(upper_of(token))
}

/// The band that the tokens `ts` from index `i` on make of the band `f`, or
/// `None` where the value of a key word is no number.
///
/// `ON` and `OFF` switch the band; a key word with a next token takes that
/// token as its value; the name of a kind sets the kind; any other token, and
/// a key word at the very end, changes nothing.
pub open spec fn scan_tokens(f: FilterView, ts: Seq<Seq<char>>, i: int) -> Option<FilterView>
    decreases ts.len() - i,
{
    if i < 0 || i >= ts.len() {
        Some(f)
    } else if is_word(ts[i], "ON"@) {
        scan_tokens(f.with_enabled(true), ts, i + 1)
    } else if is_word(ts[i], "OFF"@) {
        scan_tokens(f.with_enabled(false), ts, i + 1)
    } else {
        match named_field(ts[i]) {
            Some(field) => {
                if i + 1 >= ts.len() {
                    Some(f)
                } else if is_float_text(ts[i + 1]) {
                    scan_tokens(f.with_value(field, ascii_bytes(ts[i + 1])), ts, i + 2)
                } else {
                    None
                }
            },
            None => match named_kind(ts[i]) {
                Some(kind) => scan_tokens(f.with_kind(kind), ts, i + 1),
                None => scan_tokens(f, ts, i + 1),
            },
        }
    }
}

/// The band that the tokens of a `Filter` line describe.
pub open spec fn band_of_tokens(ts: Seq<Seq<char>>) -> Option<FilterView> {
    scan_tokens(FilterView::initial(), ts, 0)
}

/// What a line is, by its tokens.
pub enum LineKind {
    /// An empty line, a comment, or a line that is neither of the others.
    Other,
    /// A line that begins with `Preamp:`.
    Preamp,
    /// A line that begins with `Filter`.
    Band,
}

/// What a line is, given without the white space at its two ends. A line
/// that begins with `#` is a comment. The two other kinds are known by how
/// the upper-case form of the line begins.
pub open spec fn line_kind(line: Seq<char>) -> LineKind {
    if line.len() == 0 || line[0] == '#' {
        LineKind::Other
    } else if begins_with(line, "PREAMP:"@) {
        LineKind::Preamp
    } else if begins_with(line, "FILTER"@) {
        LineKind::Band
    } else {
        LineKind::Other
    }
}

/// The token that holds the value of a `Preamp:` line: what follows the colon
/// in the first token or, where nothing follows it there, the second token.
pub open spec fn preamp_token(ts: Seq<Seq<char>>) -> Option<Seq<char>> {
    if ts.len() > 0 && ts[0].len() > 7 {
        Some(ts[0].skip(7))
    } else if ts.len() > 1 {
        Some(ts[1])
    } else {
        None
    }
}

/// The profile that the line `line` makes of the profile `p`, or `None` where
/// a value in the line is no number. The line is read without the white space
/// at its two ends.
pub open spec fn read_line(p: ProfileView, line: Seq<char>) -> Option<ProfileView> {
    let ts = tokens(trim(line));
    match line_kind(trim(line)) {
        LineKind::Other => Some(p),
        LineKind::Preamp => match preamp_token(ts) {
            None => Some(p),
            Some(t) => if is_float_text(t) {
                Some(ProfileView { preamp_db: ascii_bytes(t), ..p })
            } else {
                None
            },
        },
        LineKind::Band => match band_of_tokens(ts) {
            Some(f) => Some(ProfileView { filters: p.filters.push(f), ..p }),
            None => None,
        },
    }
}

/// The profile that the lines `ls` from index `i` on make of the profile `p`,
/// or `None` where a value in one of them is no number.
pub open spec fn read_lines(p: ProfileView, ls: Seq<Seq<char>>, i: int) -> Option<ProfileView>
    decreases ls.len() - i,
{
    if i < 0 || i >= ls.len() {
        Some(p)
    } else {
        match read_line(p, ls[i]) {
            Some(q) => read_lines(q, ls, i + 1),
            None => None,
        }
    }
}

/// The profile that a text holds, or `None` where a value in it is no number.
pub open spec fn parse_profile(text: Seq<char>) -> Option<ProfileView> {
    read_lines(ProfileView::initial(), lines(text), 0)
}

/// Whether `r` is what reading the text `text` gives: the profile that the text
/// holds, or `ParseFloatError` where a value in the text is no number.
pub open spec fn is_reading_of(text: Seq<char>, r: Result<EqProfile, EqParseError>) -> bool {
    match parse_profile(text) {
        Some(p) => r matches Ok(profile) && profile@ == p,
        None => r matches Err(EqParseError::ParseFloatError),
    }
}

/// Reading is a function of the text: two readings of one text both succeed
/// or both fail, and two profiles read from one text agree in the gain before
/// the bands, in the number of their bands and in every field of every band.
pub proof fn lemma_readings_agree(
    text: Seq<char>,
    first: Result<EqProfile, EqParseError>,
    second: Result<EqProfile, EqParseError>,
)
    requires
        is_reading_of(text, first),
        is_reading_of(text, second),
    ensures
        first is Ok == second is Ok,
        first is Err ==> first == second,
        first matches Ok(p) ==> second matches Ok(q) && p@ == q@,
{
}

/// The number of a band that the key word `upper`, given in capitals, sets,
/// if it is such a key word.
pub fn field_of_upper(upper: &[char]) -> (r: Option<Field>)
    ensures
        r == field_of_word(upper@),
{
    if eq_text(upper, "FC") {
        Some(Field::Frequency)
    } else if eq_text(upper, "GAIN") {
        Some(Field::Gain)
    } else if eq_text(upper, "Q") {
        Some(Field::QFactor)
    } else if eq_text(upper, "BW") {
        Some(Field::Bandwidth)
    } else {
        None
    }
}

/// Reads the tokens of a `Filter` line into a band.
///
/// Fails, with `ParseFloatError`, exactly where the token after one of the key
/// words `Fc`, `Gain`, `Q` and `BW` is no number.
pub fn parse_filter_tokens(ts: &Vec<&[char]>) -> (r: Result<Filter, EqParseError>)
    ensures
        match band_of_tokens(views(ts@)) {
            Some(f) => r matches Ok(band) && band@ == f,
            None => r matches Err(EqParseError::ParseFloatError),
        },
{
    let mut filter = Filter::default();
    let mut i: usize = 0;
    while i < ts.len()
        invariant
            i <= ts.len(),
            scan_tokens(filter@, views(ts@), i as int) == band_of_tokens(views(ts@)),
        decreases ts.len() - i,
    {
        let token = ts[i];
        assert(views(ts@)[i as int] == token@);
        let upper = to_upper(token);
        assert(upper@ == upper_of(token@));
        if eq_text(upper.as_slice(), "ON") {
            filter.enabled = true;
            i += 1;
        } else if eq_text(upper.as_slice(), "OFF") {
            filter.enabled = false;
            i += 1;
        } else {
            match field_of_upper(upper.as_slice()) {
                Some(field) => {
                    if i + 1 < ts.len() {
                        assert(views(ts@)[i + 1] == ts@[i + 1]@);
                        match Number::from_chars(ts[i + 1]) {
                            Some(value) => {
                                filter.set(field, value);
                                i += 2;
                            },
                            None => {
                                return Err(EqParseError::ParseFloatError);
                            },
                        }
                    } else {
                        i += 1;
                    }
                },
                None => {
                    match kind_of_upper(upper.as_slice()) {
                        Some(kind) => {
                            filter.filter_type = kind;
                        },
                        None => {},
                    }
                    i += 1;
                },
            }
        }
    }
    Ok(filter)
}

/// Reads a `Filter` line into a band.
///
/// The line is scanned token by token from a band that is enabled, peaking, at
/// 1000 Hz, with 0 dB, Q 0.707 and no bandwidth. Fails, with `ParseFloatError`,
/// exactly where the token after one of the key words `Fc`, `Gain`, `Q` and `BW`
/// is no number.
pub fn parse_filter_line(line: &str) -> (r: Result<Filter, EqParseError>)
    ensures
        match band_of_tokens(tokens(line@)) {
            Some(f) => r matches Ok(band) && band@ == f,
            None => r matches Err(EqParseError::ParseFloatError),
        },
{
    let chars = chars_of(line);
    let ts = split_tokens(chars.as_slice());
    parse_filter_tokens(&ts)
}

impl EqProfile {
    /// Reads a profile text, given as its characters.
    ///
    /// The profile starts with 0 dB before the bands and no band. Each
    /// `Preamp:` line with a value sets the gain before the bands, each `Filter`
    /// line adds a band, in the order of the lines; every other line is passed
    /// over. Fails, with `ParseFloatError`, exactly where a value in one of
    /// these lines is no number; nothing of the text is kept then.
    pub fn from_chars(text: &[char]) -> (r: Result<EqProfile, EqParseError>)
        ensures
            is_reading_of(text@, r),
    {
        let ls = split_lines(text);
        let mut profile = EqProfile::default();
        let mut i: usize = 0;
        proof {
            reveal_strlit("PREAMP:");
        }
        while i < ls.len()
            invariant
                i <= ls.len(),
                "PREAMP:"@.len() == 7,
                views(ls@) == lines(text@),
                read_lines(profile@, views(ls@), i as int) == parse_profile(text@),
            decreases ls.len() - i,
        {
            let whole = ls[i];
            assert(views(ls@)[i as int] == whole@);
            let line = trim_line(whole);
            let ghost before = profile@;
            if line.len() == 0 || line[0] == '#' {
            } else {
                let upper = to_upper(line);
                assert(upper@ == upper_of(line@));
                if starts_text(upper.as_slice(), "PREAMP:") {
                    let ts = split_tokens(line);
                    if ts.len() > 0 && ts[0].len() > 7 {
                        let first = ts[0];
                        assert(views(ts@)[0] == first@);
                        let value = vstd::slice::slice_subrange(first, 7, first.len());
                        match Number::from_chars(value) {
                            Some(n) => {
                                profile.preamp_db = n;
                            },
                            None => {
                                return Err(EqParseError::ParseFloatError);
                            },
                        }
                    } else if ts.len() > 1 {
                        assert(views(ts@)[0] == ts@[0]@);
                        assert(views(ts@)[1] == ts@[1]@);
                        match Number::from_chars(ts[1]) {
                            Some(n) => {
                                profile.preamp_db = n;
                            },
                            None => {
                                return Err(EqParseError::ParseFloatError);
                            },
                        }
                    } else {
                        assert(ts@.len() > 0 ==> views(ts@)[0] == ts@[0]@);
                    }
                } else if starts_text(upper.as_slice(), "FILTER") {
                    let ts = split_tokens(line);
                    match parse_filter_tokens(&ts) {
                        Ok(band) => {
                            profile.filters.push(band);
                            assert(profile@.filters =~= before.filters.push(band@));
                        },
                        Err(_) => {
                            return Err(EqParseError::ParseFloatError);
                        },
                    }
                }
            }
            assert(read_line(before, whole@) == Some(profile@));
            i += 1;
        }
        Ok(profile)
    }

    /// Reads a profile text, as [`EqProfile::from_chars`] does with its
    /// characters.
    pub fn from_str(s: &str) -> (r: Result<EqProfile, EqParseError>)
        ensures
            is_reading_of(s@, r),
    {
        let chars = chars_of(s);
        EqProfile::from_chars(chars.as_slice())
    }
}

} // verus!
