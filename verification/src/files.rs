//! The persisted forms of profiles and calibrations: file names, the
//! entries of a profile file (button number to key and modifiers) and of a
//! calibration file (button number to node and code).

use vstd::prelude::*;

use crate::button::Button;
use crate::calibration::{codes_distinct, owner_of, Calibration, CodeView, PhysicalCode};
use crate::dto::{apply_mappings, dto_of, keys_named, lemma_profile_dto_roundtrip, mapping_spec, parse_mapping, profile_to_dto, valid_slots, MappingView};
use crate::error::{AppError, AppErrorView, DomainErrorView};
use crate::node::NodeId;
use crate::order::{sort_names, sorted_texts, texts};
use crate::profile::{ComboView, Profile, ProfileView};
use crate::slots::{empty_slots, present};
use crate::text::{concat3, contains_char, decimal, decimal_chars, digit_char, ends_with, is_blank, is_space, occurs_at, str_eq};

verus! {

/// Extension of profile files.
pub const PROFILE_EXTENSION: &'static str = ".toml";

/// A profile name that cannot name a file of the profile directory: empty,
/// holding a path separator or a NUL, padded with white space, or `.`/`..`.
pub open spec fn invalid_profile_name(name: Seq<char>) -> bool {
    ||| name.len() == 0
    ||| name.contains('/')
    ||| name.contains('\\')
    ||| name.contains('\0')
    ||| is_space(name[0])
    ||| is_space(name.last())
    ||| name == "."@
    ||| name == ".."@
}

/// The message of an invalid profile name.
pub open spec fn invalid_name_message(name: Seq<char>) -> Seq<char> {
    "invalid profile name: '"@ + name + "'"@
}

/// Refuses a profile name that cannot name a file.
pub fn validate_profile_name(name: &str) -> (r: Result<(), AppError>)
    ensures
        r is Ok <==> !invalid_profile_name(name@),
        r matches Err(e) ==> e@ == AppErrorView::Port(invalid_name_message(name@)),
{
    let n = name.unicode_len();
    let invalid = n == 0 || contains_char(name, '/') || contains_char(name, '\\') || contains_char(name, '\0')
        || crate::text::char_is_space(name.get_char(0)) || crate::text::char_is_space(name.get_char(n - 1))
        || str_eq(name, ".") || str_eq(name, "..");
    if invalid {
        return Err(AppError::Port(concat3("invalid profile name: '", name, "'")));
    }
    Ok(())
}

/// The file name of a profile.
pub fn profile_file_name(name: &str) -> (r: Result<String, AppError>)
    ensures
        r is Ok <==> !invalid_profile_name(name@),
        r matches Ok(f) ==> f@ == name@ + ".toml"@,
        r matches Err(e) ==> e@ == AppErrorView::Port(invalid_name_message(name@)),
{
    validate_profile_name(name)?;
    let mut file = String::from_str(name);
    file.append(PROFILE_EXTENSION);
    Ok(file)
}

/// The profile name a file stands for: its stem when it is a non-hidden
/// `.toml` file.
pub open spec fn profile_stem(file: Seq<char>) -> Option<Seq<char>> {
    if file.len() > 5 && occurs_at(file, ".toml"@, file.len() - 5) {
        Some(file.take(file.len() - 5))
    } else {
        None
    }
}

/// The profile names of a directory listing, in listing order.
pub open spec fn profile_stems(files: Seq<Seq<char>>) -> Seq<Seq<char>>
    decreases files.len(),
{
    if files.len() == 0 {
        Seq::empty()
    } else {
        profile_stems(files.drop_last()) + match profile_stem(files.last()) {
            Some(stem) => seq![stem],
            None => Seq::empty(),
        }
    }
}

/// The profile names of a directory listing, sorted.
pub fn profile_names(files: Vec<String>) -> (names: Vec<String>)
    ensures
        sorted_texts(texts(names@)),
        texts(names@).to_multiset() == profile_stems(texts(files@)).to_multiset(),
{
    proof {
        reveal_strlit(".toml");
    }
    let ghost fs = texts(files@);
    let mut stems: Vec<String> = Vec::new();
    let mut i: usize = 0;
    while i < files.len()
        invariant
            fs == texts(files@),
            i <= files@.len(),
            texts(stems@) == profile_stems(fs.take(i as int)),
            ".toml"@.len() == 5,
        decreases files@.len() - i,
    {
        proof {
            assert(fs.take(i + 1).drop_last() =~= fs.take(i as int));
            assert(fs.take(i + 1).last() == files@[i as int]@);
        }
        let file = files[i].as_str();
        let n = file.unicode_len();
        let ghost before = texts(stems@);
        if n > 5 && ends_with(file, PROFILE_EXTENSION) {
            let stem = file.substring_char(0, n - 5);
            stems.push(String::from_str(stem));
            assert(texts(stems@) =~= before.push(file@.take(n - 5)));
        } else {
            assert(profile_stem(file@) is None);
        }
        assert(texts(stems@) =~= profile_stems(fs.take(i + 1)));
        i = i + 1;
    }
    assert(fs.take(i as int) =~= fs);
    sort_names(stems)
}

/// Whether a character is an ASCII decimal digit.
pub open spec fn is_digit(c: char) -> bool {
    '0' <= c && c <= '9'
}

/// The value of a string of decimal digits.
pub open spec fn digits_value(s: Seq<char>) -> nat
    decreases s.len(),
{
    if s.len() == 0 {
        0
    } else {
        digits_value(s.drop_last()) * 10 + ((s.last() as int) - ('0' as int)) as nat
    }
}

/// The digits of an unsigned number: the text without its leading `+`.
pub open spec fn unsigned_digits(s: Seq<char>) -> Seq<char> {
    if s.len() > 0 && s[0] == '+' {
        s.drop_first()
    } else {
        s
    }
}

/// Every character is a decimal digit.
pub open spec fn all_digits(s: Seq<char>) -> bool {
    forall|i: int| 0 <= i < s.len() ==> is_digit(#[trigger] s[i])
}

/// What `u8`'s `from_str` reads: an optional `+`, then one or more decimal
/// digits whose value fits in a byte.
pub open spec fn parse_u8_spec(s: Seq<char>) -> Option<u8> {
    let digits = unsigned_digits(s);
    if digits.len() == 0 || !all_digits(digits) || digits_value(digits) > 255 {
        None
    } else {
        Some(digits_value(digits) as u8)
    }
}

/// Reads a button number as `u8`'s `from_str` does.
pub fn parse_u8(s: &str) -> (r: Option<u8>)
    ensures
        r == parse_u8_spec(s@),
{
    let n = s.unicode_len();
    let start: usize = if n > 0 && s.get_char(0) == '+' { 1 } else { 0 };
    let ghost digits = unsigned_digits(s@);
    assert(digits =~= s@.skip(start as int));
    if start == n {
        return None;
    }
    let mut value: u32 = 0;
    let mut over = false;
    let mut i: usize = start;
    while i < n
        invariant
            n == s@.len(),
            start <= i <= n,
            digits == s@.skip(start as int),
            digits == unsigned_digits(s@),
            forall|j: int| start <= j < i ==> is_digit(#[trigger] s@[j]),
            !over ==> value == digits_value(s@.subrange(start as int, i as int)),
            !over ==> value <= 255,
            over ==> digits_value(s@.subrange(start as int, i as int)) > 255,
        decreases n - i,
    {
        let c = s.get_char(i);
        if !('0' <= c && c <= '9') {
            assert(digits[i - start] == s@[i as int]);
            assert(!is_digit(digits[i - start]));
            return None;
        }
        let ghost prefix = s@.subrange(start as int, i as int);
        assert(s@.subrange(start as int, i + 1) =~= prefix.push(c));
        assert(prefix.push(c).drop_last() =~= prefix);
        assert(digits_value(prefix.push(c)) == digits_value(prefix) * 10 + ((c as int) - ('0' as int)));
        if !over {
            value = value * 10 + ((c as u32) - ('0' as u32));
            if value > 255 {
                over = true;
            }
        }
        i = i + 1;
    }
    assert(s@.subrange(start as int, n as int) =~= digits);
    if over {
        None
    } else {
        Some(value as u8)
    }
}

/// One entry of a profile file: the key name and the modifier names.
#[derive(Debug, Clone, PartialEq, Eq)]
pub struct ButtonEntry {
    pub key: String,
    pub modifiers: Vec<String>,
}

/// A profile file: the profile's name and its entries by button number
/// (as written in the file), in the file's order.
#[derive(Debug, Clone, PartialEq, Eq)]
pub struct ProfileFile {
    pub name: String,
    pub buttons: Vec<(String, ButtonEntry)>,
}

/// Button number text, key name, modifier names.
pub type FileEntryView = (Seq<char>, Seq<char>, Seq<Seq<char>>);

impl View for ProfileFile {
    type V = (Seq<char>, Seq<FileEntryView>);

    open spec fn view(&self) -> (Seq<char>, Seq<FileEntryView>) {
        (self.name@, self.buttons@.map_values(|e: (String, ButtonEntry)| (e.0@, e.1.key@, texts(e.1.modifiers@))))
    }
}

/// The message of a button number that cannot be read.
pub open spec fn invalid_number_message(text: Seq<char>) -> Seq<char> {
    "invalid button number: '"@ + text + "'"@
}

/// Applies the entries of a profile file in order; fails on the first bad
/// one (its number first, then as `mapping_spec` checks it).
pub open spec fn apply_file_entries(p: ProfileView, es: Seq<FileEntryView>) -> Result<ProfileView, AppErrorView>
    decreases es.len(),
{
    if es.len() == 0 {
        Ok(p)
    } else {
        match apply_file_entries(p, es.drop_last()) {
            Err(e) => Err(e),
            Ok(q) => match parse_u8_spec(es.last().0) {
                None => Err(AppErrorView::Port(invalid_number_message(es.last().0))),
                Some(n) => match mapping_spec(n, es.last().1, es.last().2) {
                    Err(e) => Err(e),
                    Ok((b, c)) => Ok((q.0, q.1.update(b - 1, Some(c)))),
                },
            },
        }
    }
}

/// The profile a profile file stands for.
pub open spec fn profile_of_file(f: (Seq<char>, Seq<FileEntryView>)) -> Result<ProfileView, AppErrorView> {
    if is_blank(f.0) {
        Err(AppErrorView::Domain(DomainErrorView::EmptyProfileName))
    } else {
        apply_file_entries((f.0, empty_slots::<ComboView>()), f.1)
    }
}

proof fn lemma_apply_file_entries_stops(p: ProfileView, es: Seq<FileEntryView>, i: int)
    requires
        0 <= i < es.len(),
        apply_file_entries(p, es.take(i + 1)) is Err,
    ensures
        apply_file_entries(p, es) == apply_file_entries(p, es.take(i + 1)),
    decreases es.len() - i,
{
    if i + 1 < es.len() {
        assert(es.take(i + 2).drop_last() =~= es.take(i + 1));
        lemma_apply_file_entries_stops(p, es, i + 1);
    } else {
        assert(es.take(i + 1) =~= es);
    }
}

/// Reads a profile file back into a profile.
pub fn profile_from_file(file: &ProfileFile) -> (r: Result<Profile, AppError>)
    ensures
        profile_of_file(file@) matches Ok(p) ==> (r matches Ok(x) && x@ == p),
        profile_of_file(file@) matches Err(e) ==> (r matches Err(x) && x@ == e),
{
    let mut profile = match Profile::new(file.name.as_str()) {
        Ok(p) => p,
        Err(e) => {
            return Err(AppError::Domain(e));
        },
    };
    let ghost es = file@.1;
    let ghost start = profile@;
    let mut i: usize = 0;
    while i < file.buttons.len()
        invariant
            es == file@.1,
            es.len() == file.buttons@.len(),
            start == (file@.0, empty_slots::<ComboView>()),
            !is_blank(file@.0),
            i <= file.buttons@.len(),
            apply_file_entries(start, es.take(i as int)) == Ok::<ProfileView, AppErrorView>(profile@),
        decreases file.buttons@.len() - i,
    {
        proof {
            assert(es.take(i + 1).drop_last() =~= es.take(i as int));
        }
        let (text, entry) = (&file.buttons[i].0, &file.buttons[i].1);
        let number = match parse_u8(text.as_str()) {
            Some(n) => n,
            None => {
                let e = AppError::Port(concat3("invalid button number: '", text.as_str(), "'"));
                proof {
                    assert(apply_file_entries(start, es.take(i + 1)) == Err::<ProfileView, AppErrorView>(e@));
                    lemma_apply_file_entries_stops(start, es, i as int);
                }
                return Err(e);
            },
        };
        let (button, combination) = match parse_mapping(number, entry.key.as_str(), &entry.modifiers) {
            Ok(pair) => pair,
            Err(e) => {
                proof {
                    assert(apply_file_entries(start, es.take(i + 1)) == Err::<ProfileView, AppErrorView>(e@));
                    lemma_apply_file_entries_stops(start, es, i as int);
                }
                return Err(e);
            },
        };
        profile.set_mapping(button, combination);
        i = i + 1;
    }
    assert(es.take(i as int) =~= es);
    Ok(profile)
}

/// The entries a profile file holds for mapped buttons, in button order.
pub open spec fn file_entries_of(ms: Seq<MappingView>) -> Seq<FileEntryView> {
    ms.map_values(|m: MappingView| (decimal_chars(m.0 as nat), m.1, m.2))
}

/// Writes a profile as a profile file; fails when a mapped key has no name.
pub fn profile_to_file(profile: &Profile) -> (r: Result<ProfileFile, AppError>)
    ensures
        dto_of(profile@) matches Ok(d) ==> (r matches Ok(f) && f@ == (d.0, file_entries_of(d.1))),
        dto_of(profile@) matches Err(e) ==> (r matches Err(x) && x@ == e),
{
    let dto = profile_to_dto(profile)?;
    let mut buttons: Vec<(String, ButtonEntry)> = Vec::new();
    let mut i: usize = 0;
    while i < dto.buttons.len()
        invariant
            i <= dto.buttons@.len(),
            buttons@.len() == i,
            forall|j: int|
                0 <= j < i ==> {
                    let e = #[trigger] buttons@[j];
                    let m = dto.buttons@[j];
                    &&& e.0@ == decimal_chars(m.button as nat)
                    &&& e.1.key@ == m.key@
                    &&& texts(e.1.modifiers@) == texts(m.modifiers@)
                },
        decreases dto.buttons@.len() - i,
    {
        let m = &dto.buttons[i];
        let modifiers = clone_strings(&m.modifiers);
        buttons.push((decimal(m.button as u64), ButtonEntry { key: m.key.clone(), modifiers }));
        i = i + 1;
    }
    let file = ProfileFile { name: dto.name, buttons };
    assert(file@.1 =~= file_entries_of(dto@.1));
    Ok(file)
}

/// Copies of a list of strings.
fn clone_strings(v: &Vec<String>) -> (r: Vec<String>)
    ensures
        texts(r@) == texts(v@),
{
    let mut r: Vec<String> = Vec::new();
    let mut i: usize = 0;
    while i < v.len()
        invariant
            i <= v@.len(),
            r@.len() == i,
            forall|j: int| 0 <= j < i ==> (#[trigger] r@[j])@ == v@[j]@,
        decreases v@.len() - i,
    {
        r.push(v[i].clone());
        i = i + 1;
    }
    assert(texts(r@) =~= texts(v@));
    r
}

/// One entry of a calibration file: the node and the code of a button.
#[derive(Debug, Clone, PartialEq, Eq)]
pub struct CalibrationEntry {
    pub node: String,
    pub code: u16,
}

/// A calibration file: its entries by button number (as written in the
/// file), in the file's order.
#[derive(Debug, Clone, PartialEq, Eq)]
pub struct CalibrationFile {
    pub buttons: Vec<(String, CalibrationEntry)>,
}

/// Button number text, node name, code.
pub type CalibrationEntryView = (Seq<char>, Seq<char>, u16);

impl View for CalibrationFile {
    type V = Seq<CalibrationEntryView>;

    open spec fn view(&self) -> Seq<CalibrationEntryView> {
        self.buttons@.map_values(|e: (String, CalibrationEntry)| (e.0@, e.1.node@, e.1.code))
    }
}

/// The slot holding a physical code.
pub open spec fn owner_index(s: Seq<Option<CodeView>>, code: CodeView) -> int {
    choose|i: int| owner_of(s, code, i)
}

/// Recording a code for the button of slot `b`: refused when another
/// button holds the code.
pub open spec fn record_spec(s: Seq<Option<CodeView>>, b: int, code: CodeView) -> Result<Seq<Option<CodeView>>, AppErrorView> {
    if exists|i: int| owner_of(s, code, i) && i != b {
        Err(
            AppErrorView::Domain(
                DomainErrorView::PhysicalCodeConflict(code.0, code.1, (owner_index(s, code) + 1) as u8, (b + 1) as u8),
            ),
        )
    } else {
        Ok(s.update(b, Some(code)))
    }
}

/// Applies the entries of a calibration file in order; fails on the first
/// bad one (its number, its button, its node, then the record).
pub open spec fn apply_calibration_entries(s: Seq<Option<CodeView>>, es: Seq<CalibrationEntryView>) -> Result<
    Seq<Option<CodeView>>,
    AppErrorView,
>
    decreases es.len(),
{
    if es.len() == 0 {
        Ok(s)
    } else {
        match apply_calibration_entries(s, es.drop_last()) {
            Err(e) => Err(e),
            Ok(q) => {
                let (text, node, code) = es.last();
                match parse_u8_spec(text) {
                    None => Err(AppErrorView::Port(invalid_number_message(text))),
                    Some(n) => if !(1 <= n <= 12) {
                        Err(AppErrorView::Domain(DomainErrorView::InvalidButton(n)))
                    } else if is_blank(node) {
                        Err(AppErrorView::Domain(DomainErrorView::EmptyNode))
                    } else {
                        record_spec(q, n - 1, (node, code))
                    },
                }
            },
        }
    }
}

proof fn lemma_apply_calibration_entries_stops(s: Seq<Option<CodeView>>, es: Seq<CalibrationEntryView>, i: int)
    requires
        0 <= i < es.len(),
        apply_calibration_entries(s, es.take(i + 1)) is Err,
    ensures
        apply_calibration_entries(s, es) == apply_calibration_entries(s, es.take(i + 1)),
    decreases es.len() - i,
{
    if i + 1 < es.len() {
        assert(es.take(i + 2).drop_last() =~= es.take(i + 1));
        lemma_apply_calibration_entries_stops(s, es, i + 1);
    } else {
        assert(es.take(i + 1) =~= es);
    }
}

/// Reads a calibration file back into a calibration.
pub fn calibration_from_file(file: &CalibrationFile) -> (r: Result<Calibration, AppError>)
    ensures
        apply_calibration_entries(empty_slots::<CodeView>(), file@) matches Ok(s) ==> (r matches Ok(c) && c@ == s),
        apply_calibration_entries(empty_slots::<CodeView>(), file@) matches Err(e) ==> (r matches Err(x) && x@
            == e),
{
    let mut calibration = Calibration::new();
    let ghost es = file@;
    let mut i: usize = 0;
    while i < file.buttons.len()
        invariant
            es == file@,
            es.len() == file.buttons@.len(),
            i <= file.buttons@.len(),
            apply_calibration_entries(empty_slots::<CodeView>(), es.take(i as int)) == Ok::<
                Seq<Option<CodeView>>,
                AppErrorView,
            >(calibration@),
        decreases file.buttons@.len() - i,
    {
        proof {
            assert(es.take(i + 1).drop_last() =~= es.take(i as int));
        }
        let ghost t = es.take(i + 1);
        let (text, entry) = (&file.buttons[i].0, &file.buttons[i].1);
        let number = match parse_u8(text.as_str()) {
            Some(n) => n,
            None => {
                let e = AppError::Port(concat3("invalid button number: '", text.as_str(), "'"));
                proof {
                    assert(apply_calibration_entries(empty_slots::<CodeView>(), t) == Err::<Seq<Option<CodeView>>, AppErrorView>(e@));
                    lemma_apply_calibration_entries_stops(empty_slots::<CodeView>(), es, i as int);
                }
                return Err(e);
            },
        };
        let button = match Button::new(number) {
            Ok(b) => b,
            Err(d) => {
                let e = AppError::Domain(d);
                proof {
                    assert(apply_calibration_entries(empty_slots::<CodeView>(), t) == Err::<Seq<Option<CodeView>>, AppErrorView>(e@));
                    lemma_apply_calibration_entries_stops(empty_slots::<CodeView>(), es, i as int);
                }
                return Err(e);
            },
        };
        let node = match NodeId::new(entry.node.as_str()) {
            Ok(n) => n,
            Err(d) => {
                let e = AppError::Domain(d);
                proof {
                    assert(apply_calibration_entries(empty_slots::<CodeView>(), t) == Err::<Seq<Option<CodeView>>, AppErrorView>(e@));
                    lemma_apply_calibration_entries_stops(empty_slots::<CodeView>(), es, i as int);
                }
                return Err(e);
            },
        };
        calibration.check_well_formed();
        let ghost before = calibration@;
        let code = PhysicalCode::new(node, entry.code);
        match calibration.record(button, code) {
            Ok(()) => {
                proof {
                    assert(!(exists|k: int| owner_of(before, code@, k) && k != number - 1));
                }
            },
            Err(d) => {
                let e = AppError::Domain(d);
                proof {
                    let k = choose|k: int| owner_of(before, code@, k) && k != number - 1;
                    let o = owner_index(before, code@);
                    assert(owner_of(before, code@, o));
                    if o != k {
                        assert(before[o] == before[k]);
                    }
                    assert(apply_calibration_entries(empty_slots::<CodeView>(), t) == Err::<Seq<Option<CodeView>>, AppErrorView>(e@));
                    lemma_apply_calibration_entries_stops(empty_slots::<CodeView>(), es, i as int);
                }
                return Err(e);
            },
        }
        i = i + 1;
    }
    assert(es.take(i as int) =~= es);
    Ok(calibration)
}

/// The entries a calibration file holds, in button order.
pub open spec fn calibration_entries_of(s: Seq<Option<CodeView>>) -> Seq<CalibrationEntryView> {
    present(s).map_values(|e: (int, CodeView)| (decimal_chars(e.0 as nat), e.1.0, e.1.1))
}

/// Writes a calibration as a calibration file.
pub fn calibration_to_file(calibration: &Calibration) -> (f: CalibrationFile)
    ensures
        f@ == calibration_entries_of(calibration@),
{
    let pairs = calibration.buttons();
    let mut buttons: Vec<(String, CalibrationEntry)> = Vec::new();
    let mut i: usize = 0;
    while i < pairs.len()
        invariant
            i <= pairs@.len(),
            buttons@.len() == i,
            forall|j: int|
                0 <= j < i ==> {
                    let e = #[trigger] buttons@[j];
                    &&& e.0@ == decimal_chars(pairs@[j].0@ as nat)
                    &&& e.1.node@ == pairs@[j].1@.0
                    &&& e.1.code == pairs@[j].1@.1
                },
        decreases pairs@.len() - i,
    {
        let (button, code) = (&pairs[i].0, &pairs[i].1);
        buttons.push(
            (decimal(button.number() as u64), CalibrationEntry { node: String::from_str(code.node().as_str()), code: code.code() }),
        );
        i = i + 1;
    }
    let f = CalibrationFile { buttons };
    assert(f@ =~= calibration_entries_of(calibration@));
    f
}

proof fn lemma_digit_value(d: nat)
    requires
        d < 10,
    ensures
        is_digit(digit_char(d)),
        (digit_char(d) as int) - ('0' as int) == d,
{
}

/// The decimal writing of a number is made of digits and reads back as the
/// number.
proof fn lemma_decimal_digits(n: nat)
    ensures
        decimal_chars(n).len() > 0,
        all_digits(decimal_chars(n)),
        digits_value(decimal_chars(n)) == n,
    decreases n,
{
    let d = decimal_chars(n);
    if n < 10 {
        lemma_digit_value(n);
        assert(d =~= seq![digit_char(n)]);
        assert(d.drop_last() =~= Seq::<char>::empty());
        assert(digits_value(d.drop_last()) == 0);
        assert(digits_value(d) == digits_value(d.drop_last()) * 10 + ((d.last() as int) - ('0' as int)));
    } else {
        lemma_digit_value(n % 10);
        assert((n / 10) * 10 + n % 10 == n) by (nonlinear_arith);
        lemma_decimal_digits(n / 10);
        let h = decimal_chars(n / 10);
        assert(d =~= h + seq![digit_char(n % 10)]);
        assert(d.drop_last() =~= h);
        assert(d.last() == digit_char(n % 10));
        assert(digits_value(d) == digits_value(h) * 10 + ((d.last() as int) - ('0' as int)));
        assert forall|i: int| 0 <= i < d.len() implies is_digit(#[trigger] d[i]) by {
            if i < h.len() {
                assert(d[i] == h[i]);
            }
        }
    }
}

/// A button number written in decimal reads back as itself.
pub proof fn lemma_button_number_parses(n: u8)
    ensures
        parse_u8_spec(decimal_chars(n as nat)) == Some(n),
{
    lemma_decimal_digits(n as nat);
    let d = decimal_chars(n as nat);
    assert(is_digit(d[0]));
    assert(unsigned_digits(d) == d);
}

/// Reading the entries of a profile file is reading their exchanged forms.
proof fn lemma_file_entries_as_mappings(p: ProfileView, ms: Seq<MappingView>)
    ensures
        apply_file_entries(p, file_entries_of(ms)) == apply_mappings(p, ms),
    decreases ms.len(),
{
    if ms.len() > 0 {
        lemma_file_entries_as_mappings(p, ms.drop_last());
        assert(file_entries_of(ms).drop_last() =~= file_entries_of(ms.drop_last()));
        lemma_button_number_parses(ms.last().0);
    }
}

/// What is saved is loaded back: a profile whose mapped keys all have names
/// is written as a profile file that reads back into the same profile.
pub proof fn lemma_profile_file_roundtrip(p: ProfileView)
    requires
        !is_blank(p.0),
        valid_slots(p.1),
        keys_named(p.1),
    ensures
        dto_of(p) is Ok,
        profile_of_file((p.0, file_entries_of(dto_of(p)->Ok_0.1))) == Ok::<ProfileView, AppErrorView>(p),
{
    lemma_profile_dto_roundtrip(p);
    let d = dto_of(p)->Ok_0;
    lemma_file_entries_as_mappings((p.0, empty_slots::<ComboView>()), d.1);
}

/// The slots of the first `k` buttons, the others empty.
pub open spec fn first_codes(s: Seq<Option<CodeView>>, k: int) -> Seq<Option<CodeView>> {
    Seq::new(12, |i: int| if i < k { s[i] } else { None })
}

/// Slots that a `Calibration` can hold: twelve, no code held twice, every
/// node named.
pub open spec fn valid_codes(s: Seq<Option<CodeView>>) -> bool {
    &&& s.len() == 12
    &&& codes_distinct(s)
    &&& forall|i: int| 0 <= i < 12 && (#[trigger] s[i]) is Some ==> !is_blank((s[i]->0).0)
}

proof fn lemma_calibration_prefix(s: Seq<Option<CodeView>>, k: int)
    requires
        valid_codes(s),
        0 <= k <= 12,
    ensures
        apply_calibration_entries(empty_slots::<CodeView>(), calibration_entries_of(s.take(k))) == Ok::<
            Seq<Option<CodeView>>,
            AppErrorView,
        >(first_codes(s, k)),
    decreases k,
{
    if k == 0 {
        assert(s.take(0) =~= Seq::<Option<CodeView>>::empty());
        assert(calibration_entries_of(s.take(0)) =~= Seq::<CalibrationEntryView>::empty());
        assert(first_codes(s, 0) =~= empty_slots::<CodeView>());
    } else {
        lemma_calibration_prefix(s, k - 1);
        let t = s.take(k);
        assert(t.drop_last() =~= s.take(k - 1));
        assert(t.last() == s[k - 1]);
        let q = first_codes(s, k - 1);
        match s[k - 1] {
            None => {
                assert(present(t) =~= present(s.take(k - 1)));
                assert(first_codes(s, k) =~= q);
            },
            Some(c) => {
                assert(present(t) =~= present(s.take(k - 1)).push((k, c)));
                let es = calibration_entries_of(t);
                assert(es.drop_last() =~= calibration_entries_of(s.take(k - 1)));
                assert(es.last() == (decimal_chars(k as nat), c.0, c.1));
                lemma_button_number_parses(k as u8);
                assert(!(exists|i: int| owner_of(q, c, i) && i != k - 1)) by {
                    if exists|i: int| owner_of(q, c, i) && i != k - 1 {
                        let i = choose|i: int| owner_of(q, c, i) && i != k - 1;
                        assert(q[i] == s[i]);
                        assert(s[i] != s[k - 1]);
                    }
                }
                assert(q.update(k - 1, Some(c)) =~= first_codes(s, k));
            },
        }
    }
}

/// What is saved is loaded back: a calibration is written as a calibration
/// file that reads back into the same calibration.
pub proof fn lemma_calibration_file_roundtrip(s: Seq<Option<CodeView>>)
    requires
        valid_codes(s),
    ensures
        apply_calibration_entries(empty_slots::<CodeView>(), calibration_entries_of(s)) == Ok::<
            Seq<Option<CodeView>>,
            AppErrorView,
        >(s),
{
    lemma_calibration_prefix(s, 12);
    assert(s.take(12) =~= s);
    assert(first_codes(s, 12) =~= s);
}

} // verus!
