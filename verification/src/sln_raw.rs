//! The reader of solution (`.sln`) files: the format header, the Visual Studio
//! version line, and the `Project ... EndProject` entries that follow.
use crate::text::{
    chars_match_at, chars_of, fold_digits, is_decimal_digit, parse_u16, parse_u8, spec_parse_u16,
    spec_parse_u8, str_eq, substring, IntErrorKind,
};
use vstd::prelude::*;

verus! {

/// The step of the reader at which a solution file stopped matching.
#[derive(Clone, Copy, Debug, PartialEq, Eq, Structural)]
pub enum SlnErrorKind {
    /// An expected literal text.
    Tag,
    /// An expected character.
    Char,
    /// A closing character that never comes.
    TakeUntil,
    /// An expected decimal digit.
    Digit,
    /// Digits that do not fit the number's type.
    MapRes,
    /// A quoted text that is not a UUID.
    Fail,
    /// A repeated entry that reads nothing.
    Many0,
}

/// Where and why a solution file stopped matching: the text that was left at
/// the failing step, and the step.
#[derive(Debug, Clone)]
pub struct SlnError {
    pub input: String,
    pub kind: SlnErrorKind,
}

/// The name of the step `k`.
pub open spec fn kind_name(k: SlnErrorKind) -> Seq<char> {
    match k {
        SlnErrorKind::Tag => "Tag"@,
        SlnErrorKind::Char => "Char"@,
        SlnErrorKind::TakeUntil => "TakeUntil"@,
        SlnErrorKind::Digit => "Digit"@,
        SlnErrorKind::MapRes => "MapRes"@,
        SlnErrorKind::Fail => "Fail"@,
        SlnErrorKind::Many0 => "Many0"@,
    }
}

/// `s` as std's `Debug` formatting writes a `str`: in double quotes, with
/// escapes.
pub uninterp spec fn debug_text(s: Seq<char>) -> Seq<char>;

/// Calls std's `Debug` formatting of a `str` (`format!("{:?}", s)`). The
/// contract only names the result: which characters are escaped, and how, is
/// not restated.
#[verifier::external_body]
fn debug_quoted(s: &str) -> (r: String)
    ensures
        r@ == debug_text(s@),
{
    format!("{:?}", s)
}

/// The message that tells a solution error: the text left at the failing
/// step, quoted, and the step.
pub open spec fn sln_error_message(input: Seq<char>, kind: SlnErrorKind) -> Seq<char> {
    "Parsing Error: Error { input: "@ + debug_text(input) + ", code: "@ + kind_name(kind) + " }"@
}

fn kind_text(k: SlnErrorKind) -> (r: &'static str)
    ensures
        r@ == kind_name(k),
{
    match k {
        SlnErrorKind::Tag => "Tag",
        SlnErrorKind::Char => "Char",
        SlnErrorKind::TakeUntil => "TakeUntil",
        SlnErrorKind::Digit => "Digit",
        SlnErrorKind::MapRes => "MapRes",
        SlnErrorKind::Fail => "Fail",
        SlnErrorKind::Many0 => "Many0",
    }
}

impl SlnError {
    /// The message that tells this error, in the form the solution reader's
    /// parser library prints its errors.
    pub fn message(&self) -> (r: String)
        ensures
            r@ == sln_error_message(self.input@, self.kind),
    {
        let mut r = "Parsing Error: Error { input: ".to_owned();
        let q = debug_quoted(self.input.as_str());
        r.append(q.as_str());
        r.append(", code: ");
        r.append(kind_text(self.kind));
        r.append(" }");
        r
    }
}

/// The rest of the input and a value, or the input at the failing step and the step.
pub type PResult<T> = Result<(Seq<char>, T), (Seq<char>, SlnErrorKind)>;

/// The literal `t` at the start of `i`.
pub open spec fn spec_tag(t: Seq<char>, i: Seq<char>) -> PResult<Seq<char>> {
    if t.len() <= i.len() && i.take(t.len() as int) == t {
        Ok((i.skip(t.len() as int), t))
    } else {
        Err((i, SlnErrorKind::Tag))
    }
}

/// The character `c` at the start of `i`.
pub open spec fn spec_char(c: char, i: Seq<char>) -> PResult<char> {
    if i.len() > 0 && i[0] == c {
        Ok((i.skip(1), c))
    } else {
        Err((i, SlnErrorKind::Char))
    }
}

/// The first position at or after `k` that holds `c`.
pub open spec fn find_from(i: Seq<char>, c: char, k: int) -> Option<int>
    decreases i.len() - k,
{
    if k < 0 || k >= i.len() {
        None
    } else if i[k] == c {
        Some(k)
    } else {
        find_from(i, c, k + 1)
    }
}

/// The text before the first `c`; the rest starts with `c`.
pub open spec fn spec_take_until(c: char, i: Seq<char>) -> PResult<Seq<char>> {
    match find_from(i, c, 0) {
        Some(k) => Ok((i.skip(k), i.take(k))),
        None => Err((i, SlnErrorKind::TakeUntil)),
    }
}

/// The text between `open` at the start of `i` and the next `close`.
pub open spec fn spec_delimited(open: char, close: char, i: Seq<char>) -> PResult<Seq<char>> {
    match spec_char(open, i) {
        Err(e) => Err(e),
        Ok((i1, _)) => match spec_take_until(close, i1) {
            Err(e) => Err(e),
            Ok((i2, body)) => match spec_char(close, i2) {
                Err(e) => Err(e),
                Ok((i3, _)) => Ok((i3, body)),
            },
        },
    }
}

/// The text in parentheses at the start of `i`.
pub open spec fn spec_parse_parentheses(i: Seq<char>) -> PResult<Seq<char>> {
    spec_delimited('(', ')', i)
}

/// The text in double quotes at the start of `i`.
pub open spec fn spec_parse_string(i: Seq<char>) -> PResult<Seq<char>> {
    spec_delimited('"', '"', i)
}

pub open spec fn is_space(c: char) -> bool {
    c == ' ' || c == '\t' || c == '\r' || c == '\n'
}

/// The first position at or after `k` that does not hold white space.
pub open spec fn space_end(i: Seq<char>, k: int) -> int
    decreases i.len() - k,
{
    if k < 0 || k >= i.len() {
        i.len() as int
    } else if is_space(i[k]) {
        space_end(i, k + 1)
    } else {
        k
    }
}

/// The white space (spaces, tabs, carriage returns, line feeds) at the start of `i`.
pub open spec fn spec_sp(i: Seq<char>) -> (Seq<char>, Seq<char>) {
    (i.skip(space_end(i, 0)), i.take(space_end(i, 0)))
}

/// The character `c` with any white space around it.
pub open spec fn spec_charsep(c: char, i: Seq<char>) -> PResult<char> {
    match spec_char(c, spec_sp(i).0) {
        Err(e) => Err(e),
        Ok((i2, x)) => Ok((spec_sp(i2).0, x)),
    }
}

/// The first position at or after `k` that does not hold a decimal digit.
pub open spec fn digit_end(i: Seq<char>, k: int) -> int
    decreases i.len() - k,
{
    if k < 0 || k >= i.len() {
        i.len() as int
    } else if is_decimal_digit(i[k]) {
        digit_end(i, k + 1)
    } else {
        k
    }
}

/// One or more decimal digits at the start of `i`.
pub open spec fn spec_digit1(i: Seq<char>) -> PResult<Seq<char>> {
    if digit_end(i, 0) == 0 {
        Err((i, SlnErrorKind::Digit))
    } else {
        Ok((i.skip(digit_end(i, 0)), i.take(digit_end(i, 0))))
    }
}

/// A decimal `u8` at the start of `i`.
pub open spec fn spec_u8_number(i: Seq<char>) -> PResult<u8> {
    match spec_digit1(i) {
        Err(e) => Err(e),
        Ok((r, ds)) => match spec_parse_u8(ds) {
            Ok(v) => Ok((r, v)),
            Err(_) => Err((i, SlnErrorKind::MapRes)),
        },
    }
}

/// A decimal `u16` at the start of `i`.
pub open spec fn spec_u16_number(i: Seq<char>) -> PResult<u16> {
    match spec_digit1(i) {
        Err(e) => Err(e),
        Ok((r, ds)) => match spec_parse_u16(ds) {
            Ok(v) => Ok((r, v)),
            Err(_) => Err((i, SlnErrorKind::MapRes)),
        },
    }
}

/// `Microsoft Visual Studio Solution File, Format Version <major>.<minor>`.
pub open spec fn spec_sln_version(i: Seq<char>) -> PResult<(u8, u8)> {
    match spec_tag("Microsoft Visual Studio Solution File, Format Version "@, i) {
        Err(e) => Err(e),
        Ok((i1, _)) => match spec_u8_number(i1) {
            Err(e) => Err(e),
            Ok((i2, major)) => match spec_tag("."@, i2) {
                Err(e) => Err(e),
                Ok((i3, _)) => match spec_u8_number(i3) {
                    Err(e) => Err(e),
                    Ok((i4, minor)) => Ok((i4, (major, minor))),
                },
            },
        },
    }
}

/// `# Visual Studio <year>`.
pub open spec fn spec_vs_version(i: Seq<char>) -> PResult<u16> {
    match spec_tag("# Visual Studio "@, i) {
        Err(e) => Err(e),
        Ok((i1, _)) => spec_u16_number(i1),
    }
}

/// The UUID that `uuid` reads from `s`, as a number.
pub uninterp spec fn uuid_from_str(s: Seq<char>) -> Option<u128>;

/// Calls `uuid::Uuid::parse_str` on `s` and gives the UUID as its 128-bit
/// number (`Uuid::as_u128`), or nothing where it refuses the text. The contract
/// only names the result: which spellings of a UUID are accepted is not restated.
#[verifier::external_body]
fn uuid_parse_str(s: &str) -> (r: Option<u128>)
    ensures
        r == uuid_from_str(s@),
{
    match uuid::Uuid::parse_str(s) {
        Ok(u) => Some(u.as_u128()),
        Err(_) => None,
    }
}

/// A UUID in double quotes at the start of `i`.
pub open spec fn spec_parse_uuid(i: Seq<char>) -> PResult<u128> {
    match spec_parse_string(i) {
        Err(e) => Err(e),
        Ok((r, s)) => match uuid_from_str(s) {
            Some(u) => Ok((r, u)),
            None => Err((r, SlnErrorKind::Fail)),
        },
    }
}

/// What reading an entry gives: the rest of the input and a value, the input at
/// the failing step and the step, or a stop of the program.
pub enum Outcome<T> {
    Done(Seq<char>, T),
    Failed(Seq<char>, SlnErrorKind),
    Aborted,
}

/// What a project entry holds.
pub struct ProjectModel {
    pub up_uuid: u128,
    pub name: Seq<char>,
    pub path: Seq<char>,
    pub uuid: u128,
}

pub open spec fn failed<T>(e: (Seq<char>, SlnErrorKind)) -> Outcome<T> {
    Outcome::Failed(e.0, e.1)
}

/// `Project("{type}") = "name", "path", "{uuid}"`, white space, `EndProject`.
/// The parenthesised text must be exactly one quoted UUID: where it reads as
/// one and more text follows it, the program stops.
pub open spec fn spec_project(i: Seq<char>) -> Outcome<ProjectModel> {
    match spec_tag("Project"@, i) {
        Err(e) => failed(e),
        Ok((i1, _)) => match spec_parse_parentheses(i1) {
            Err(e) => failed(e),
            Ok((i2, up)) => match spec_parse_uuid(up) {
                Err(e) => failed(e),
                Ok((j, up_uuid)) => if j.len() != 0 {
                    Outcome::Aborted
                } else {
                    match spec_charsep('=', i2) {
                        Err(e) => failed(e),
                        Ok((i3, _)) => match spec_parse_string(i3) {
                            Err(e) => failed(e),
                            Ok((i4, name)) => match spec_charsep(',', i4) {
                                Err(e) => failed(e),
                                Ok((i5, _)) => match spec_parse_string(i5) {
                                    Err(e) => failed(e),
                                    Ok((i6, path)) => match spec_charsep(',', i6) {
                                        Err(e) => failed(e),
                                        Ok((i7, _)) => match spec_parse_uuid(i7) {
                                            Err(e) => failed(e),
                                            Ok((i8, uuid)) => match spec_tag(
                                                "EndProject"@,
                                                spec_sp(i8).0,
                                            ) {
                                                Err(e) => failed(e),
                                                Ok((i9, _)) => Outcome::Done(
                                                    i9,
                                                    ProjectModel { up_uuid, name, path, uuid },
                                                ),
                                            },
                                        },
                                    },
                                },
                            },
                        },
                    }
                },
            },
        },
    }
}

/// Project entries read one after another until one does not read; an entry
/// that reads nothing is an error.
pub open spec fn spec_projects(i: Seq<char>) -> Outcome<Seq<ProjectModel>>
    decreases i.len(),
{
    match spec_project(i) {
        Outcome::Aborted => Outcome::Aborted,
        Outcome::Failed(_, _) => Outcome::Done(i, Seq::empty()),
        Outcome::Done(r, p) => if r.len() >= i.len() {
            Outcome::Failed(i, SlnErrorKind::Many0)
        } else {
            match spec_projects(r) {
                Outcome::Aborted => Outcome::Aborted,
                Outcome::Failed(e, k) => Outcome::Failed(e, k),
                Outcome::Done(r2, ps) => Outcome::Done(r2, seq![p] + ps),
            }
        },
    }
}

/// A solution file: an optional byte order mark, the format header (the
/// program stops unless the major version is 10 or the minor version 0), the
/// Visual Studio version line (the program stops unless it is 2008), then the
/// project entries.
pub open spec fn spec_sln(i: Seq<char>) -> Outcome<Seq<ProjectModel>> {
    let i0 = match spec_tag("\u{FEFF}"@, i) {
        Ok((r, _)) => r,
        Err(_) => i,
    };
    match spec_sln_version(spec_sp(i0).0) {
        Err(e) => failed(e),
        Ok((i2, (major, minor))) => if major != 10 && minor != 0 {
            Outcome::Aborted
        } else {
            match spec_vs_version(spec_sp(i2).0) {
                Err(e) => failed(e),
                Ok((i4, vs)) => if vs != 2008 {
                    Outcome::Aborted
                } else {
                    match spec_projects(spec_sp(i4).0) {
                        Outcome::Aborted => Outcome::Aborted,
                        Outcome::Failed(e, k) => Outcome::Failed(e, k),
                        Outcome::Done(i6, ps) => Outcome::Done(spec_sp(i6).0, ps),
                    }
                },
            }
        },
    }
}

/// A solution: its projects and its global section.
#[derive(Debug)]
pub struct Sln {
    pub projects: Vec<Project>,
    pub global: Global,
}

/// A project entry of a solution.
#[derive(Debug)]
pub struct Project {
    pub up_uuid: u128,
    pub name: String,
    pub path: String,
    pub uuid: u128,
    pub section_dependencies: Option<SectionDependencies>,
}

/// The dependencies section of a project entry.
#[derive(Debug)]
pub struct SectionDependencies {
    pub deps: Vec<SectionDependency>,
}

/// One dependency between two projects.
#[derive(Debug)]
pub struct SectionDependency {
    pub from: u128,
    pub to: u128,
}

/// The global section of a solution.
#[derive(Debug)]
pub struct Global {
    pub pre_sln_platforms: Option<SolutionConfigurationPlatforms>,
    pub post_proj_platforms: Option<ProjectConfigurationPlatforms>,
    pub pre_props: Option<SolutionProperties>,
}

/// The solution's configuration and platform pairs.
#[derive(Debug)]
pub struct SolutionConfigurationPlatforms {
    pub platforms: Vec<SolutionConfigurationPlatform>,
}

#[derive(Debug)]
pub struct SolutionConfigurationPlatform {
    pub platform_name: String,
}

/// The projects' configuration and platform pairs.
#[derive(Debug)]
pub struct ProjectConfigurationPlatforms {
    pub platforms: Vec<ProjectConfigurationPlatform>,
}

#[derive(Debug)]
pub struct ProjectConfigurationPlatform {
    pub uuid: u128,
    pub sln_platform_name: String,
    pub is_enabled: bool,
}

#[derive(Debug)]
pub struct SolutionProperties {
    pub hide_solution_node: bool,
}

/// A nesting of one project under another.
#[derive(Debug)]
pub struct NestedProjects {
    pub from: u128,
    pub to: u128,
}

impl Project {
    pub open spec fn model(&self) -> ProjectModel {
        ProjectModel { up_uuid: self.up_uuid, name: self.name@, path: self.path@, uuid: self.uuid }
    }
}

impl Global {
    /// The global section holds nothing.
    pub open spec fn is_empty(&self) -> bool {
        &&& self.pre_sln_platforms is None
        &&& self.post_proj_platforms is None
        &&& self.pre_props is None
    }
}

impl Default for Global {
    fn default() -> (r: Global)
        ensures
            r.is_empty(),
    {
        Global { pre_sln_platforms: None, post_proj_platforms: None, pre_props: None }
    }
}

impl Default for SectionDependencies {
    fn default() -> (r: SectionDependencies)
        ensures
            r.deps@.len() == 0,
    {
        SectionDependencies { deps: Vec::new() }
    }
}

impl Default for Project {
    fn default() -> (r: Project)
        ensures
            r.up_uuid == 0,
            r.name@.len() == 0,
            r.path@.len() == 0,
            r.uuid == 0,
            r.section_dependencies is None,
    {
        Project {
            up_uuid: 0,
            name: String::new(),
            path: String::new(),
            uuid: 0,
            section_dependencies: None,
        }
    }
}

pub open spec fn project_models(s: Seq<Project>) -> Seq<ProjectModel> {
    s.map_values(|p: Project| p.model())
}

/// The error that the reader reports.
pub open spec fn error_model(e: SlnError) -> (Seq<char>, SlnErrorKind) {
    (e.input@, e.kind)
}

fn fail(s: &str, at: usize, kind: SlnErrorKind) -> (r: SlnError)
    requires
        at <= s@.len(),
    ensures
        r.input@ == s@.skip(at as int),
        r.kind == kind,
{
    let r = SlnError { input: substring(s, at, s.unicode_len()), kind };
    assert(s@.subrange(at as int, s@.len() as int) =~= s@.skip(at as int));
    r
}

/// The literal `t` at position `p`.
fn tag_at(s: &str, c: &[char], p: usize, t: &str) -> (r: Result<usize, SlnError>)
    requires
        c@ == s@,
        p <= c@.len(),
    ensures
        match r {
            Ok(q) => p <= q <= c@.len() && spec_tag(t@, s@.skip(p as int)) == Ok::<
                (Seq<char>, Seq<char>),
                (Seq<char>, SlnErrorKind),
            >((s@.skip(q as int), t@)),
            Err(e) => spec_tag(t@, s@.skip(p as int)) == Err::<
                (Seq<char>, Seq<char>),
                (Seq<char>, SlnErrorKind),
            >(error_model(e)),
        },
{
    let tc = chars_of(t);
    let ghost i = s@.skip(p as int);
    let n: usize = c.len();
    if chars_match_at(c, tc.as_slice(), p) {
        assert(p + tc@.len() <= n);
        assert(i.take(t@.len() as int) =~= c@.subrange(p as int, p + t@.len()));
        assert(i.skip(t@.len() as int) =~= s@.skip(p + tc@.len()));
        Ok(p + tc.len())
    } else {
        proof {
            if t@.len() <= i.len() {
                assert(i.take(t@.len() as int) =~= c@.subrange(p as int, p + t@.len()));
            }
        }
        Err(fail(s, p, SlnErrorKind::Tag))
    }
}

/// The character `ch` at position `p`.
fn char_at(s: &str, c: &[char], p: usize, ch: char) -> (r: Result<usize, SlnError>)
    requires
        c@ == s@,
        p <= c@.len(),
    ensures
        match r {
            Ok(q) => q == p + 1 && q <= c@.len() && spec_char(ch, s@.skip(p as int)) == Ok::<
                (Seq<char>, char),
                (Seq<char>, SlnErrorKind),
            >((s@.skip(q as int), ch)),
            Err(e) => spec_char(ch, s@.skip(p as int)) == Err::<
                (Seq<char>, char),
                (Seq<char>, SlnErrorKind),
            >(error_model(e)),
        },
{
    if p < c.len() && c[p] == ch {
        assert(s@.skip(p as int).skip(1) =~= s@.skip(p + 1));
        Ok(p + 1)
    } else {
        Err(fail(s, p, SlnErrorKind::Char))
    }
}

/// The text between `open` at position `p` and the next `close`: the position
/// after `close`, and the bounds of the text.
fn delimited_at(s: &str, c: &[char], p: usize, open: char, close: char) -> (r: Result<
    (usize, usize, usize),
    SlnError,
>)
    requires
        c@ == s@,
        p <= c@.len(),
    ensures
        match r {
            Ok((q, a, b)) => p <= a <= b < q <= c@.len() && spec_delimited(
                open,
                close,
                s@.skip(p as int),
            ) == Ok::<(Seq<char>, Seq<char>), (Seq<char>, SlnErrorKind)>(
                (s@.skip(q as int), s@.subrange(a as int, b as int)),
            ),
            Err(e) => spec_delimited(open, close, s@.skip(p as int)) == Err::<
                (Seq<char>, Seq<char>),
                (Seq<char>, SlnErrorKind),
            >(error_model(e)),
        },
{
    let a = match char_at(s, c, p, open) {
        Ok(q) => q,
        Err(e) => return Err(e),
    };
    let ghost i1 = s@.skip(a as int);
    let mut k: usize = a;
    while k < c.len() && c[k] != close
        invariant
            c@ == s@,
            a <= k <= c@.len(),
            i1 == s@.skip(a as int),
            find_from(i1, close, 0) == find_from(i1, close, k - a),
        decreases c@.len() - k,
    {
        k = k + 1;
    }
    if k == c.len() {
        return Err(fail(s, a, SlnErrorKind::TakeUntil));
    }
    assert(i1.skip(k - a) =~= s@.skip(k as int));
    assert(i1.take(k - a) =~= s@.subrange(a as int, k as int));
    let q: usize = match char_at(s, c, k, close) {
        Ok(q) => q,
        Err(e) => return Err(e),
    };
    Ok((q, a, k))
}

/// The position after the white space at position `p`.
fn sp_at(s: &str, c: &[char], p: usize) -> (q: usize)
    requires
        c@ == s@,
        p <= c@.len(),
    ensures
        p <= q <= c@.len(),
        spec_sp(s@.skip(p as int)) == (s@.skip(q as int), s@.subrange(p as int, q as int)),
{
    let ghost i = s@.skip(p as int);
    let mut k: usize = p;
    while k < c.len() && (c[k] == ' ' || c[k] == '\t' || c[k] == '\r' || c[k] == '\n')
        invariant
            c@ == s@,
            p <= k <= c@.len(),
            i == s@.skip(p as int),
            space_end(i, 0) == space_end(i, k - p),
        decreases c@.len() - k,
    {
        k = k + 1;
    }
    assert(i.skip(k - p) =~= s@.skip(k as int));
    assert(i.take(k - p) =~= s@.subrange(p as int, k as int));
    k
}

/// The character `ch` with white space around it, at position `p`.
fn charsep_at(s: &str, c: &[char], p: usize, ch: char) -> (r: Result<usize, SlnError>)
    requires
        c@ == s@,
        p <= c@.len(),
    ensures
        match r {
            Ok(q) => p <= q <= c@.len() && spec_charsep(ch, s@.skip(p as int)) == Ok::<
                (Seq<char>, char),
                (Seq<char>, SlnErrorKind),
            >((s@.skip(q as int), ch)),
            Err(e) => spec_charsep(ch, s@.skip(p as int)) == Err::<
                (Seq<char>, char),
                (Seq<char>, SlnErrorKind),
            >(error_model(e)),
        },
{
    let p1 = sp_at(s, c, p);
    let p2 = match char_at(s, c, p1, ch) {
        Ok(q) => q,
        Err(e) => return Err(e),
    };
    Ok(sp_at(s, c, p2))
}

/// The decimal digits at position `p`: the position after them.
fn digits_at(s: &str, c: &[char], p: usize) -> (r: Result<usize, SlnError>)
    requires
        c@ == s@,
        p <= c@.len(),
    ensures
        match r {
            Ok(q) => p < q <= c@.len() && spec_digit1(s@.skip(p as int)) == Ok::<
                (Seq<char>, Seq<char>),
                (Seq<char>, SlnErrorKind),
            >((s@.skip(q as int), s@.subrange(p as int, q as int))),
            Err(e) => spec_digit1(s@.skip(p as int)) == Err::<
                (Seq<char>, Seq<char>),
                (Seq<char>, SlnErrorKind),
            >(error_model(e)),
        },
{
    let ghost i = s@.skip(p as int);
    let mut k: usize = p;
    while k < c.len() && '0' <= c[k] && c[k] <= '9'
        invariant
            c@ == s@,
            p <= k <= c@.len(),
            i == s@.skip(p as int),
            digit_end(i, 0) == digit_end(i, k - p),
        decreases c@.len() - k,
    {
        k = k + 1;
    }
    if k == p {
        return Err(fail(s, p, SlnErrorKind::Digit));
    }
    assert(i.skip(k - p) =~= s@.skip(k as int));
    assert(i.take(k - p) =~= s@.subrange(p as int, k as int));
    Ok(k)
}

/// A decimal `u8` at position `p`.
fn u8_number_at(s: &str, c: &[char], p: usize) -> (r: Result<(usize, u8), SlnError>)
    requires
        c@ == s@,
        p <= c@.len(),
    ensures
        match r {
            Ok((q, v)) => p <= q <= c@.len() && spec_u8_number(s@.skip(p as int)) == Ok::<
                (Seq<char>, u8),
                (Seq<char>, SlnErrorKind),
            >((s@.skip(q as int), v)),
            Err(e) => spec_u8_number(s@.skip(p as int)) == Err::<
                (Seq<char>, u8),
                (Seq<char>, SlnErrorKind),
            >(error_model(e)),
        },
{
    let q: usize = match digits_at(s, c, p) {
        Ok(q) => q,
        Err(e) => return Err(e),
    };
    let ds = substring(s, p, q);
    match parse_u8(ds.as_str()) {
        Ok(v) => Ok((q, v)),
        Err(_) => Err(fail(s, p, SlnErrorKind::MapRes)),
    }
}

/// A decimal `u16` at position `p`.
fn u16_number_at(s: &str, c: &[char], p: usize) -> (r: Result<(usize, u16), SlnError>)
    requires
        c@ == s@,
        p <= c@.len(),
    ensures
        match r {
            Ok((q, v)) => p <= q <= c@.len() && spec_u16_number(s@.skip(p as int)) == Ok::<
                (Seq<char>, u16),
                (Seq<char>, SlnErrorKind),
            >((s@.skip(q as int), v)),
            Err(e) => spec_u16_number(s@.skip(p as int)) == Err::<
                (Seq<char>, u16),
                (Seq<char>, SlnErrorKind),
            >(error_model(e)),
        },
{
    let q: usize = match digits_at(s, c, p) {
        Ok(q) => q,
        Err(e) => return Err(e),
    };
    let ds = substring(s, p, q);
    match parse_u16(ds.as_str()) {
        Ok(v) => Ok((q, v)),
        Err(_) => Err(fail(s, p, SlnErrorKind::MapRes)),
    }
}

/// The format header at position `p`.
fn sln_version_at(s: &str, c: &[char], p: usize) -> (r: Result<(usize, (u8, u8)), SlnError>)
    requires
        c@ == s@,
        p <= c@.len(),
    ensures
        match r {
            Ok((q, v)) => p <= q <= c@.len() && spec_sln_version(s@.skip(p as int)) == Ok::<
                (Seq<char>, (u8, u8)),
                (Seq<char>, SlnErrorKind),
            >((s@.skip(q as int), v)),
            Err(e) => spec_sln_version(s@.skip(p as int)) == Err::<
                (Seq<char>, (u8, u8)),
                (Seq<char>, SlnErrorKind),
            >(error_model(e)),
        },
{
    let p1 = match tag_at(s, c, p, "Microsoft Visual Studio Solution File, Format Version ") {
        Ok(q) => q,
        Err(e) => return Err(e),
    };
    let (p2, major) = match u8_number_at(s, c, p1) {
        Ok(x) => x,
        Err(e) => return Err(e),
    };
    let p3 = match tag_at(s, c, p2, ".") {
        Ok(q) => q,
        Err(e) => return Err(e),
    };
    let (p4, minor) = match u8_number_at(s, c, p3) {
        Ok(x) => x,
        Err(e) => return Err(e),
    };
    Ok((p4, (major, minor)))
}

/// The Visual Studio version line at position `p`.
fn vs_version_at(s: &str, c: &[char], p: usize) -> (r: Result<(usize, u16), SlnError>)
    requires
        c@ == s@,
        p <= c@.len(),
    ensures
        match r {
            Ok((q, v)) => p <= q <= c@.len() && spec_vs_version(s@.skip(p as int)) == Ok::<
                (Seq<char>, u16),
                (Seq<char>, SlnErrorKind),
            >((s@.skip(q as int), v)),
            Err(e) => spec_vs_version(s@.skip(p as int)) == Err::<
                (Seq<char>, u16),
                (Seq<char>, SlnErrorKind),
            >(error_model(e)),
        },
{
    let p1 = match tag_at(s, c, p, "# Visual Studio ") {
        Ok(q) => q,
        Err(e) => return Err(e),
    };
    u16_number_at(s, c, p1)
}

/// A quoted UUID at position `p`.
fn uuid_at(s: &str, c: &[char], p: usize) -> (r: Result<(usize, u128), SlnError>)
    requires
        c@ == s@,
        p <= c@.len(),
    ensures
        match r {
            Ok((q, v)) => p <= q <= c@.len() && spec_parse_uuid(s@.skip(p as int)) == Ok::<
                (Seq<char>, u128),
                (Seq<char>, SlnErrorKind),
            >((s@.skip(q as int), v)),
            Err(e) => spec_parse_uuid(s@.skip(p as int)) == Err::<
                (Seq<char>, u128),
                (Seq<char>, SlnErrorKind),
            >(error_model(e)),
        },
{
    let (q, a, b) = match delimited_at(s, c, p, '"', '"') {
        Ok(x) => x,
        Err(e) => return Err(e),
    };
    let text = substring(s, a, b);
    match uuid_parse_str(text.as_str()) {
        Some(u) => Ok((q, u)),
        None => Err(fail(s, q, SlnErrorKind::Fail)),
    }
}

/// What reading an entry gives: the position after it and a value, the error,
/// or a stop of the program.
pub enum Parsed<T> {
    Done(usize, T),
    Failed(SlnError),
    Aborted,
}

/// `p` is the position after an entry read at `p0`, and so on: the reading at
/// `p0` of `s` gives `expected` with the model `m` of the value.
pub open spec fn parsed_matches<T, M>(
    s: Seq<char>,
    p0: int,
    r: Parsed<T>,
    expected: Outcome<M>,
    m: spec_fn(T) -> M,
) -> bool {
    match r {
        Parsed::Done(q, v) => p0 <= q <= s.len() && expected == Outcome::Done(s.skip(q as int), m(v)),
        Parsed::Failed(e) => expected == Outcome::<M>::Failed(e.input@, e.kind),
        Parsed::Aborted => expected is Aborted,
    }
}

/// A project entry at position `p`.
#[verifier::rlimit(40)]
fn project_at(s: &str, c: &[char], p: usize) -> (r: Parsed<Project>)
    requires
        c@ == s@,
        p <= c@.len(),
    ensures
        parsed_matches(s@, p as int, r, spec_project(s@.skip(p as int)), |x: Project| x.model()),
        r matches Parsed::Done(_, x) ==> x.section_dependencies is None,
{
    let p1 = match tag_at(s, c, p, "Project") {
        Ok(q) => q,
        Err(e) => return Parsed::Failed(e),
    };
    let (p2, a, b) = match delimited_at(s, c, p1, '(', ')') {
        Ok(x) => x,
        Err(e) => return Parsed::Failed(e),
    };
    let inner = substring(s, a, b);
    let ic = chars_of(inner.as_str());
    assert(inner@.skip(0) =~= inner@);
    let (j, up_uuid) = match uuid_at(inner.as_str(), ic.as_slice(), 0) {
        Ok(x) => x,
        Err(e) => return Parsed::Failed(e),
    };
    if j != ic.len() {
        return Parsed::Aborted;
    }
    let p3 = match charsep_at(s, c, p2, '=') {
        Ok(q) => q,
        Err(e) => return Parsed::Failed(e),
    };
    let (p4, na, nb) = match delimited_at(s, c, p3, '"', '"') {
        Ok(x) => x,
        Err(e) => return Parsed::Failed(e),
    };
    let p5 = match charsep_at(s, c, p4, ',') {
        Ok(q) => q,
        Err(e) => return Parsed::Failed(e),
    };
    let (p6, pa, pb) = match delimited_at(s, c, p5, '"', '"') {
        Ok(x) => x,
        Err(e) => return Parsed::Failed(e),
    };
    let p7 = match charsep_at(s, c, p6, ',') {
        Ok(q) => q,
        Err(e) => return Parsed::Failed(e),
    };
    let (p8, uuid) = match uuid_at(s, c, p7) {
        Ok(x) => x,
        Err(e) => return Parsed::Failed(e),
    };
    let p9 = sp_at(s, c, p8);
    let p10 = match tag_at(s, c, p9, "EndProject") {
        Ok(q) => q,
        Err(e) => return Parsed::Failed(e),
    };
    let project = Project {
        up_uuid,
        name: substring(s, na, nb),
        path: substring(s, pa, pb),
        uuid,
        section_dependencies: None,
    };
    Parsed::Done(p10, project)
}

/// Project entries one after another from position `p`.
fn projects_at(s: &str, c: &[char], p: usize) -> (r: Parsed<Vec<Project>>)
    requires
        c@ == s@,
        p <= c@.len(),
    ensures
        parsed_matches(
            s@,
            p as int,
            r,
            spec_projects(s@.skip(p as int)),
            |x: Vec<Project>| project_models(x@),
        ),
        r matches Parsed::Done(_, x) ==> forall|k: int|
            0 <= k < x@.len() ==> (#[trigger] x@[k]).section_dependencies is None,
{
    let mut out: Vec<Project> = Vec::new();
    let mut q: usize = p;
    assert(project_models(out@) =~= Seq::<ProjectModel>::empty());
    loop
        invariant
            c@ == s@,
            p <= q <= c@.len(),
            forall|k: int| 0 <= k < out@.len() ==> (#[trigger] out@[k]).section_dependencies is None,
            spec_projects(s@.skip(p as int)) == (match spec_projects(s@.skip(q as int)) {
                Outcome::Aborted => Outcome::Aborted,
                Outcome::Failed(e, k) => Outcome::Failed(e, k),
                Outcome::Done(r2, ps) => Outcome::Done(r2, project_models(out@) + ps),
            }),
        decreases c@.len() - q,
    {
        match project_at(s, c, q) {
            Parsed::Aborted => return Parsed::Aborted,
            Parsed::Failed(_) => {
                assert(project_models(out@) + Seq::<ProjectModel>::empty() =~= project_models(out@));
                return Parsed::Done(q, out);
            },
            Parsed::Done(q2, x) => {
                if q2 == q {
                    return Parsed::Failed(fail(s, q, SlnErrorKind::Many0));
                }
                let ghost before = project_models(out@);
                let ghost xm = x.model();
                out.push(x);
                assert(project_models(out@) =~= before.push(xm));
                proof {
                    match spec_projects(s@.skip(q2 as int)) {
                        Outcome::Done(r2, ps) => {
                            assert(before + (seq![xm] + ps) =~= project_models(out@) + ps);
                        },
                        _ => {},
                    }
                }
                q = q2;
            },
        }
    }
}

/// A solution file read from the start of `s`.
fn sln_at(s: &str, c: &[char]) -> (r: Parsed<Vec<Project>>)
    requires
        c@ == s@,
    ensures
        parsed_matches(s@, 0, r, spec_sln(s@), |x: Vec<Project>| project_models(x@)),
        r matches Parsed::Done(_, x) ==> forall|k: int|
            0 <= k < x@.len() ==> (#[trigger] x@[k]).section_dependencies is None,
{
    assert(s@.skip(0) =~= s@);
    let p0 = match tag_at(s, c, 0, "\u{FEFF}") {
        Ok(q) => q,
        Err(_) => 0,
    };
    let p1 = sp_at(s, c, p0);
    let (p2, (major, minor)) = match sln_version_at(s, c, p1) {
        Ok(x) => x,
        Err(e) => return Parsed::Failed(e),
    };
    if major != 10 && minor != 0 {
        return Parsed::Aborted;
    }
    let p3 = sp_at(s, c, p2);
    let (p4, vs) = match vs_version_at(s, c, p3) {
        Ok(x) => x,
        Err(e) => return Parsed::Failed(e),
    };
    if vs != 2008 {
        return Parsed::Aborted;
    }
    let p5 = sp_at(s, c, p4);
    match projects_at(s, c, p5) {
        Parsed::Aborted => Parsed::Aborted,
        Parsed::Failed(e) => Parsed::Failed(e),
        Parsed::Done(p6, projects) => Parsed::Done(sp_at(s, c, p6), projects),
    }
}

/// The rest of `i` from position `q`.
fn rest_of<'a>(i: &'a str, q: usize) -> (r: &'a str)
    requires
        q <= i@.len(),
    ensures
        r@ == i@.skip(q as int),
{
    let r = i.substring_char(q, i.unicode_len());
    assert(i@.subrange(q as int, i@.len() as int) =~= i@.skip(q as int));
    r
}

impl Sln {
    /// Reads a solution file.
    pub fn parse(i: &str) -> (r: Result<Self, SlnError>)
        requires
            !(spec_sln(i@) is Aborted),
        ensures
            match r {
                Ok(sln) => {
                    &&& spec_sln(i@) matches Outcome::Done(_, ps) && project_models(sln.projects@) == ps
                    &&& sln.global.is_empty()
                    &&& forall|k: int|
                        0 <= k < sln.projects@.len() ==> (#[trigger] sln.projects@[k]).section_dependencies is None
                },
                Err(e) => spec_sln(i@) == Outcome::<Seq<ProjectModel>>::Failed(e.input@, e.kind),
            },
    {
        let c = chars_of(i);
        match sln_at(i, c.as_slice()) {
            Parsed::Done(_, projects) => Ok(Sln { projects, global: Global::default() }),
            Parsed::Failed(e) => Err(e),
            Parsed::Aborted => {
                assert(false);
                Err(fail(i, 0, SlnErrorKind::Fail))
            },
        }
    }

    /// The index of the first project entry called `name`, if any.
    pub fn find_project(&self, name: &str) -> (r: Option<usize>)
        ensures
            match r {
                Some(k) => k < self.projects@.len() && self.projects@[k as int].name@ == name@
                    && forall|j: int| 0 <= j < k ==> (#[trigger] self.projects@[j]).name@ != name@,
                None => forall|j: int|
                    0 <= j < self.projects@.len() ==> (#[trigger] self.projects@[j]).name@ != name@,
            },
    {
        let mut k: usize = 0;
        while k < self.projects.len()
            invariant
                k <= self.projects@.len(),
                forall|j: int| 0 <= j < k ==> (#[trigger] self.projects@[j]).name@ != name@,
            decreases self.projects@.len() - k,
        {
            if str_eq(self.projects[k].name.as_str(), name) {
                return Some(k);
            }
            k = k + 1;
        }
        None
    }

    /// Reads a solution file where that does not stop the program; `None` where it would.
    pub fn parse_checked(i: &str) -> (r: Option<Result<Self, SlnError>>)
        ensures
            r is None <==> spec_sln(i@) is Aborted,
            r matches Some(Ok(sln)) ==> {
                &&& spec_sln(i@) matches Outcome::Done(_, ps) && project_models(sln.projects@) == ps
                &&& sln.global.is_empty()
                &&& forall|k: int|
                    0 <= k < sln.projects@.len() ==> (#[trigger] sln.projects@[k]).section_dependencies is None
            },
            r matches Some(Err(e)) ==> spec_sln(i@) == Outcome::<Seq<ProjectModel>>::Failed(
                e.input@,
                e.kind,
            ),
    {
        let c = chars_of(i);
        match sln_at(i, c.as_slice()) {
            Parsed::Aborted => None,
            _ => Some(Self::parse(i)),
        }
    }
}

impl Project {
    /// Reads a project entry at the start of `i`: the rest of `i` after it, and the entry.
    pub fn parse<'a>(i: &'a str) -> (r: Result<(&'a str, Self), SlnError>)
        requires
            !(spec_project(i@) is Aborted),
        ensures
            match r {
                Ok((rest, p)) => spec_project(i@) == Outcome::Done(rest@, p.model())
                    && p.section_dependencies is None,
                Err(e) => spec_project(i@) == Outcome::<ProjectModel>::Failed(e.input@, e.kind),
            },
    {
        let c = chars_of(i);
        assert(i@.skip(0) =~= i@);
        match project_at(i, c.as_slice(), 0) {
            Parsed::Done(q, p) => Ok((rest_of(i, q), p)),
            Parsed::Failed(e) => Err(e),
            Parsed::Aborted => {
                assert(false);
                Err(fail(i, 0, SlnErrorKind::Fail))
            },
        }
    }

    /// Reads a project entry where that does not stop the program; `None` where it would.
    pub fn parse_checked<'a>(i: &'a str) -> (r: Option<Result<(&'a str, Self), SlnError>>)
        ensures
            r is None <==> spec_project(i@) is Aborted,
            r matches Some(Ok((rest, p))) ==> spec_project(i@) == Outcome::Done(rest@, p.model())
                && p.section_dependencies is None,
            r matches Some(Err(e)) ==> spec_project(i@) == Outcome::<ProjectModel>::Failed(
                e.input@,
                e.kind,
            ),
    {
        let c = chars_of(i);
        assert(i@.skip(0) =~= i@);
        match project_at(i, c.as_slice(), 0) {
            Parsed::Aborted => None,
            _ => Some(Self::parse(i)),
        }
    }
}

impl Global {
    /// The global section: nothing of it is read; the input is left as it is.
    pub fn parse<'a>(i: &'a str) -> (r: Result<(&'a str, Self), SlnError>)
        ensures
            r matches Ok((rest, g)) && rest@ == i@ && g.is_empty(),
    {
        Ok((i, Global::default()))
    }
}

/// Shapes an entry-level result of the reader into the result of a public reader.
pub open spec fn presult_matches<T, M>(
    s: Seq<char>,
    r: Result<(&str, T), SlnError>,
    expected: PResult<M>,
    m: spec_fn(T) -> M,
) -> bool {
    match r {
        Ok((rest, v)) => expected == Ok::<(Seq<char>, M), (Seq<char>, SlnErrorKind)>((rest@, m(v))),
        Err(e) => expected == Err::<(Seq<char>, M), (Seq<char>, SlnErrorKind)>(error_model(e)),
    }
}

/// The literal `t` at the start of `i`: the rest, and the literal.
pub fn tag<'a>(t: &str, i: &'a str) -> (r: Result<(&'a str, String), SlnError>)
    ensures
        presult_matches(i@, r, spec_tag(t@, i@), |x: String| x@),
{
    let c = chars_of(i);
    assert(i@.skip(0) =~= i@);
    match tag_at(i, c.as_slice(), 0, t) {
        Ok(q) => Ok((rest_of(i, q), t.to_owned())),
        Err(e) => Err(e),
    }
}

/// The white space at the start of `i`: the rest, and the white space.
pub fn sp<'a>(i: &'a str) -> (r: Result<(&'a str, String), SlnError>)
    ensures
        r matches Ok((rest, spaces)) && (rest@, spaces@) == spec_sp(i@),
{
    let c = chars_of(i);
    assert(i@.skip(0) =~= i@);
    let q: usize = sp_at(i, c.as_slice(), 0);
    Ok((rest_of(i, q), substring(i, 0, q)))
}

/// The character `sep` at the start of `i`, with white space around it.
pub fn charsep<'a>(sep: char, i: &'a str) -> (r: Result<(&'a str, char), SlnError>)
    ensures
        presult_matches(i@, r, spec_charsep(sep, i@), |x: char| x),
{
    let c = chars_of(i);
    assert(i@.skip(0) =~= i@);
    match charsep_at(i, c.as_slice(), 0, sep) {
        Ok(q) => Ok((rest_of(i, q), sep)),
        Err(e) => Err(e),
    }
}

/// The text in parentheses at the start of `i`.
pub fn parse_parentheses<'a>(i: &'a str) -> (r: Result<(&'a str, String), SlnError>)
    ensures
        presult_matches(i@, r, spec_parse_parentheses(i@), |x: String| x@),
{
    let c = chars_of(i);
    assert(i@.skip(0) =~= i@);
    match delimited_at(i, c.as_slice(), 0, '(', ')') {
        Ok((q, a, b)) => Ok((rest_of(i, q), substring(i, a, b))),
        Err(e) => Err(e),
    }
}

/// The text in double quotes at the start of `i`.
pub fn parse_string<'a>(i: &'a str) -> (r: Result<(&'a str, String), SlnError>)
    ensures
        presult_matches(i@, r, spec_parse_string(i@), |x: String| x@),
{
    let c = chars_of(i);
    assert(i@.skip(0) =~= i@);
    match delimited_at(i, c.as_slice(), 0, '"', '"') {
        Ok((q, a, b)) => Ok((rest_of(i, q), substring(i, a, b))),
        Err(e) => Err(e),
    }
}

/// A UUID in double quotes at the start of `i`, as its 128-bit number.
pub fn parse_uuid<'a>(i: &'a str) -> (r: Result<(&'a str, u128), SlnError>)
    ensures
        presult_matches(i@, r, spec_parse_uuid(i@), |x: u128| x),
{
    let c = chars_of(i);
    assert(i@.skip(0) =~= i@);
    match uuid_at(i, c.as_slice(), 0) {
        Ok((q, u)) => Ok((rest_of(i, q), u)),
        Err(e) => Err(e),
    }
}

/// The Visual Studio version line at the start of `i`.
pub fn vs_version<'a>(i: &'a str) -> (r: Result<(&'a str, u16), SlnError>)
    ensures
        presult_matches(i@, r, spec_vs_version(i@), |x: u16| x),
{
    let c = chars_of(i);
    assert(i@.skip(0) =~= i@);
    match vs_version_at(i, c.as_slice(), 0) {
        Ok((q, v)) => Ok((rest_of(i, q), v)),
        Err(e) => Err(e),
    }
}

/// The format header at the start of `i`: the major and minor format versions.
pub fn sln_version<'a>(i: &'a str) -> (r: Result<(&'a str, (u8, u8)), SlnError>)
    ensures
        presult_matches(i@, r, spec_sln_version(i@), |x: (u8, u8)| x),
{
    let c = chars_of(i);
    assert(i@.skip(0) =~= i@);
    match sln_version_at(i, c.as_slice(), 0) {
        Ok((q, v)) => Ok((rest_of(i, q), v)),
        Err(e) => Err(e),
    }
}

/// Every character of `s` is white space.
pub open spec fn all_space(s: Seq<char>) -> bool {
    forall|k: int| 0 <= k < s.len() ==> is_space(#[trigger] s[k])
}

/// `s` is empty or starts with something other than white space.
pub open spec fn starts_solid(s: Seq<char>) -> bool {
    s.len() == 0 || !is_space(s[0])
}

/// `s` in double quotes.
pub open spec fn quoted(s: Seq<char>) -> Seq<char> {
    seq!['"'] + s + seq!['"']
}

/// A project entry as solution files write it: the type UUID in parentheses,
/// `=`, the quoted name, path and UUID separated by commas, a line break and
/// `EndProject`.
pub open spec fn project_entry(up: Seq<char>, name: Seq<char>, path: Seq<char>, uuid: Seq<char>) -> Seq<
    char,
> {
    "Project"@ + seq!['('] + quoted(up) + seq![')'] + seq![' ', '=', ' '] + quoted(name) + seq![',', ' ']
        + quoted(path) + seq![',', ' '] + quoted(uuid) + seq!['\r', '\n'] + "EndProject"@
}

proof fn lemma_space_end(i: Seq<char>, k: int)
    requires
        0 <= k <= i.len(),
    ensures
        k <= space_end(i, k) <= i.len(),
        forall|j: int| k <= j < space_end(i, k) ==> is_space(#[trigger] i[j]),
        space_end(i, k) < i.len() ==> !is_space(i[space_end(i, k)]),
    decreases i.len() - k,
{
    if k < i.len() && is_space(i[k]) {
        lemma_space_end(i, k + 1);
    }
}

proof fn lemma_space_end_prefix(ws: Seq<char>, rest: Seq<char>, k: int)
    requires
        0 <= k <= ws.len(),
        all_space(ws),
        starts_solid(rest),
    ensures
        space_end(ws + rest, k) == ws.len(),
    decreases ws.len() - k,
{
    let i = ws + rest;
    if k < ws.len() {
        assert(i[k] == ws[k]);
        lemma_space_end_prefix(ws, rest, k + 1);
    } else if rest.len() > 0 {
        assert(i[k] == rest[0]);
    }
}

proof fn lemma_sp_prefix(ws: Seq<char>, rest: Seq<char>)
    requires
        all_space(ws),
        starts_solid(rest),
    ensures
        spec_sp(ws + rest) == (rest, ws),
{
    lemma_space_end_prefix(ws, rest, 0);
    assert((ws + rest).skip(ws.len() as int) =~= rest);
    assert((ws + rest).take(ws.len() as int) =~= ws);
}

proof fn lemma_find_from_prefix(pre: Seq<char>, c: char, post: Seq<char>, k: int)
    requires
        0 <= k <= pre.len(),
        !pre.contains(c),
    ensures
        find_from(pre + seq![c] + post, c, k) == Some(pre.len() as int),
    decreases pre.len() - k,
{
    let i = pre + seq![c] + post;
    if k < pre.len() {
        assert(i[k] == pre[k]);
        lemma_find_from_prefix(pre, c, post, k + 1);
    } else {
        assert(i[k] == c);
    }
}

proof fn lemma_delimited(open: char, close: char, s: Seq<char>, rest: Seq<char>)
    requires
        !s.contains(close),
    ensures
        spec_delimited(open, close, seq![open] + s + seq![close] + rest) == Ok::<
            (Seq<char>, Seq<char>),
            (Seq<char>, SlnErrorKind),
        >((rest, s)),
{
    let i = seq![open] + s + seq![close] + rest;
    let i1 = s + seq![close] + rest;
    assert(i[0] == open);
    assert(i.skip(1) =~= i1);
    lemma_find_from_prefix(s, close, rest, 0);
    assert(i1.take(s.len() as int) =~= s);
    let i2 = i1.skip(s.len() as int);
    assert(i2[0] == close);
    assert(i2.skip(1) =~= rest);
}

/// White space: `sp` splits the input into the white space at its start and
/// the rest, which starts with something else.
pub proof fn law_sp_splits(i: Seq<char>)
    ensures
        spec_sp(i).1 + spec_sp(i).0 == i,
        all_space(spec_sp(i).1),
        starts_solid(spec_sp(i).0),
{
    lemma_space_end(i, 0);
    let e: int = space_end(i, 0);
    assert(i.take(e) + i.skip(e) =~= i);
    assert forall|k: int| 0 <= k < i.take(e).len() implies is_space(#[trigger] i.take(e)[k]) by {
        assert(i.take(e)[k] == i[k]);
    }
    if i.skip(e).len() > 0 {
        assert(i.skip(e)[0] == i[e]);
    }
}

/// Reading white space again right after it reads nothing.
pub proof fn law_sp_again(i: Seq<char>)
    ensures
        spec_sp(spec_sp(i).0) == (spec_sp(i).0, Seq::<char>::empty()),
{
    law_sp_splits(i);
    lemma_sp_prefix(Seq::<char>::empty(), spec_sp(i).0);
    assert(Seq::<char>::empty() + spec_sp(i).0 =~= spec_sp(i).0);
}

/// A literal reads itself and leaves what follows it.
pub proof fn law_tag_reads_itself(t: Seq<char>, rest: Seq<char>)
    ensures
        spec_tag(t, t + rest) == Ok::<(Seq<char>, Seq<char>), (Seq<char>, SlnErrorKind)>((rest, t)),
{
    assert((t + rest).take(t.len() as int) =~= t);
    assert((t + rest).skip(t.len() as int) =~= rest);
}

/// A separator reads with any white space before and after it, and leaves
/// what follows that white space.
pub proof fn law_charsep(c: char, before: Seq<char>, after: Seq<char>, rest: Seq<char>)
    requires
        !is_space(c),
        all_space(before),
        all_space(after),
        starts_solid(rest),
    ensures
        spec_charsep(c, before + seq![c] + after + rest) == Ok::<(Seq<char>, char), (Seq<char>, SlnErrorKind)>(
            (rest, c),
        ),
{
    let tail = seq![c] + after + rest;
    assert(before + seq![c] + after + rest =~= before + tail);
    lemma_sp_prefix(before, tail);
    assert(tail.skip(1) =~= after + rest);
    lemma_sp_prefix(after, rest);
}

/// A quoted text without double quotes in it reads as that text.
pub proof fn law_parse_string(s: Seq<char>, rest: Seq<char>)
    requires
        !s.contains('"'),
    ensures
        spec_parse_string(quoted(s) + rest) == Ok::<(Seq<char>, Seq<char>), (Seq<char>, SlnErrorKind)>(
            (rest, s),
        ),
{
    lemma_delimited('"', '"', s, rest);
}

/// A text in parentheses without a closing parenthesis in it reads as that text.
pub proof fn law_parse_parentheses(s: Seq<char>, rest: Seq<char>)
    requires
        !s.contains(')'),
    ensures
        spec_parse_parentheses(seq!['('] + s + seq![')'] + rest) == Ok::<
            (Seq<char>, Seq<char>),
            (Seq<char>, SlnErrorKind),
        >((rest, s)),
{
    lemma_delimited('(', ')', s, rest);
}

/// A project entry written as solution files write it reads back as its type
/// UUID, name, path and UUID, and leaves what follows it.
#[verifier::rlimit(40)]
pub proof fn law_project_entry(
    up: Seq<char>,
    name: Seq<char>,
    path: Seq<char>,
    uuid: Seq<char>,
    up_uuid: u128,
    id: u128,
    rest: Seq<char>,
)
    requires
        !up.contains('"'),
        !up.contains(')'),
        !name.contains('"'),
        !path.contains('"'),
        !uuid.contains('"'),
        uuid_from_str(up) == Some(up_uuid),
        uuid_from_str(uuid) == Some(id),
    ensures
        spec_project(project_entry(up, name, path, uuid) + rest) == Outcome::Done(
            rest,
            ProjectModel { up_uuid, name, path, uuid: id },
        ),
{
    reveal_strlit("Project");
    reveal_strlit("EndProject");
    let end = "EndProject"@;
    let t5 = seq!['\r', '\n'] + end + rest;
    let t4 = quoted(uuid) + t5;
    let t3 = seq![','] + seq![' '] + t4;
    let t2b = quoted(path) + t3;
    let t2 = seq![','] + seq![' '] + t2b;
    let t1b = quoted(name) + t2;
    let t1 = seq![' '] + seq!['='] + seq![' '] + t1b;
    let q_up = quoted(up);
    let a = seq!['('] + q_up + seq![')'] + t1;
    assert(project_entry(up, name, path, uuid) + rest =~= "Project"@ + a);
    law_tag_reads_itself("Project"@, a);
    assert forall|k: int| 0 <= k < q_up.len() implies q_up[k] != ')' by {
        if 0 < k < q_up.len() - 1 {
            assert(q_up[k] == up[k - 1]);
        }
    }
    law_parse_parentheses(q_up, t1);
    assert(q_up + Seq::<char>::empty() =~= q_up);
    law_parse_string(up, Seq::<char>::empty());
    assert(all_space(seq![' ']));
    assert(all_space(Seq::<char>::empty()));
    assert(t1b[0] == '"');
    law_charsep('=', seq![' '], seq![' '], t1b);
    law_parse_string(name, t2);
    assert(t2b[0] == '"');
    assert(t2 =~= Seq::<char>::empty() + seq![','] + seq![' '] + t2b);
    law_charsep(',', Seq::<char>::empty(), seq![' '], t2b);
    law_parse_string(path, t3);
    assert(t4[0] == '"');
    assert(t3 =~= Seq::<char>::empty() + seq![','] + seq![' '] + t4);
    law_charsep(',', Seq::<char>::empty(), seq![' '], t4);
    law_parse_string(uuid, t5);
    assert(all_space(seq!['\r', '\n']));
    assert((end + rest)[0] == 'E');
    assert(t5 =~= seq!['\r', '\n'] + (end + rest));
    lemma_sp_prefix(seq!['\r', '\n'], end + rest);
    law_tag_reads_itself(end, rest);
    assert(spec_parse_uuid(t4) == Ok::<(Seq<char>, u128), (Seq<char>, SlnErrorKind)>((t5, id)));
    assert(spec_parse_uuid(q_up) == Ok::<(Seq<char>, u128), (Seq<char>, SlnErrorKind)>(
        (Seq::<char>::empty(), up_uuid),
    ));
}

/// The fields of a project entry as a solution file writes them.
pub struct EntryText {
    pub up: Seq<char>,
    pub name: Seq<char>,
    pub path: Seq<char>,
    pub uuid: Seq<char>,
}

/// The entry's fields hold no double quote, its type UUID no closing
/// parenthesis, and both UUIDs read.
pub open spec fn entry_readable(e: EntryText) -> bool {
    &&& !e.up.contains('"')
    &&& !e.up.contains(')')
    &&& !e.name.contains('"')
    &&& !e.path.contains('"')
    &&& !e.uuid.contains('"')
    &&& uuid_from_str(e.up) is Some
    &&& uuid_from_str(e.uuid) is Some
}

/// What reading the entry gives.
pub open spec fn entry_model(e: EntryText) -> ProjectModel {
    ProjectModel {
        up_uuid: uuid_from_str(e.up)->Some_0,
        name: e.name,
        path: e.path,
        uuid: uuid_from_str(e.uuid)->Some_0,
    }
}

/// The entries written one right after another.
pub open spec fn entries_text(es: Seq<EntryText>) -> Seq<char>
    decreases es.len(),
{
    if es.len() == 0 {
        Seq::empty()
    } else {
        project_entry(es[0].up, es[0].name, es[0].path, es[0].uuid) + entries_text(es.skip(1))
    }
}

/// A Visual Studio 2008 solution file with the entries `es`: the format header
/// `10.00`, the version line, then the entries.
pub open spec fn solution_text(es: Seq<EntryText>) -> Seq<char> {
    "Microsoft Visual Studio Solution File, Format Version "@ + seq!['1', '0', '.', '0', '0', '\r', '\n']
        + "# Visual Studio "@ + seq!['2', '0', '0', '8', '\r', '\n'] + entries_text(es)
}

/// Project entries written one right after another, followed by text that is
/// not an entry, read back as the entries, in order, and leave that text.
pub proof fn law_project_entries(es: Seq<EntryText>, rest: Seq<char>)
    requires
        forall|k: int| 0 <= k < es.len() ==> entry_readable(#[trigger] es[k]),
        spec_project(rest) is Failed,
    ensures
        spec_projects(entries_text(es) + rest) == Outcome::Done(
            rest,
            es.map_values(|e: EntryText| entry_model(e)),
        ),
    decreases es.len(),
{
    if es.len() == 0 {
        assert(entries_text(es) + rest =~= rest);
        assert(es.map_values(|e: EntryText| entry_model(e)) =~= Seq::<ProjectModel>::empty());
    } else {
        let e = es[0];
        let tail = es.skip(1);
        assert(entry_readable(e));
        assert forall|k: int| 0 <= k < tail.len() implies entry_readable(#[trigger] tail[k]) by {
            assert(tail[k] == es[k + 1]);
        }
        law_project_entries(tail, rest);
        let r = entries_text(tail) + rest;
        let head = project_entry(e.up, e.name, e.path, e.uuid);
        assert(entries_text(es) + rest =~= head + r);
        law_project_entry(
            e.up,
            e.name,
            e.path,
            e.uuid,
            uuid_from_str(e.up)->Some_0,
            uuid_from_str(e.uuid)->Some_0,
            r,
        );
        assert(head.len() > 0) by {
            reveal_strlit("Project");
        }
        assert(seq![entry_model(e)] + tail.map_values(|e: EntryText| entry_model(e)) =~= es.map_values(
            |e: EntryText| entry_model(e),
        ));
    }
}

proof fn lemma_digit_end_prefix(ds: Seq<char>, x: Seq<char>, k: int)
    requires
        0 <= k <= ds.len(),
        forall|j: int| 0 <= j < ds.len() ==> is_decimal_digit(#[trigger] ds[j]),
        !(x.len() > 0 && is_decimal_digit(x[0])),
    ensures
        digit_end(ds + x, k) == ds.len(),
    decreases ds.len() - k,
{
    let i = ds + x;
    if k < ds.len() {
        assert(i[k] == ds[k]);
        lemma_digit_end_prefix(ds, x, k + 1);
    } else if x.len() > 0 {
        assert(i[k] == x[0]);
    }
}

proof fn lemma_digit1_prefix(ds: Seq<char>, x: Seq<char>)
    requires
        ds.len() > 0,
        forall|j: int| 0 <= j < ds.len() ==> is_decimal_digit(#[trigger] ds[j]),
        !(x.len() > 0 && is_decimal_digit(x[0])),
    ensures
        spec_digit1(ds + x) == Ok::<(Seq<char>, Seq<char>), (Seq<char>, SlnErrorKind)>((x, ds)),
{
    lemma_digit_end_prefix(ds, x, 0);
    assert((ds + x).skip(ds.len() as int) =~= x);
    assert((ds + x).take(ds.len() as int) =~= ds);
}

/// A Visual Studio 2008 solution file whose project entries follow one right
/// after another reads back as those entries, in order; the text after them,
/// which is not an entry with or without its leading white space, is left
/// without its leading white space.
#[verifier::rlimit(40)]
pub proof fn law_solution(es: Seq<EntryText>, rest: Seq<char>)
    requires
        forall|k: int| 0 <= k < es.len() ==> entry_readable(#[trigger] es[k]),
        if es.len() == 0 {
            spec_project(spec_sp(rest).0) is Failed
        } else {
            spec_project(rest) is Failed
        },
    ensures
        spec_sln(solution_text(es) + rest) == Outcome::Done(
            spec_sp(rest).0,
            es.map_values(|e: EntryText| entry_model(e)),
        ),
{
    let head = "Microsoft Visual Studio Solution File, Format Version "@;
    let vs = "# Visual Studio "@;
    reveal_strlit("Microsoft Visual Studio Solution File, Format Version ");
    reveal_strlit("# Visual Studio ");
    reveal_strlit("\u{FEFF}");
    reveal_strlit("Project");
    reveal_strlit(".");
    let x = entries_text(es) + rest;
    let after_year = seq!['\r', '\n'] + x;
    let t_year = seq!['2', '0', '0', '8'] + after_year;
    let t_vs = vs + t_year;
    let after_minor = seq!['\r', '\n'] + t_vs;
    let t_minor = seq!['0', '0'] + after_minor;
    let t_dot = seq!['.'] + t_minor;
    let t_major = seq!['1', '0'] + t_dot;
    let text = head + t_major;
    assert(solution_text(es) + rest =~= text);
    // No byte order mark, no white space before the header.
    assert(text[0] == 'M');
    assert(text.take(1)[0] != "\u{FEFF}"@[0]);
    assert(spec_tag("\u{FEFF}"@, text) is Err);
    lemma_sp_prefix(Seq::<char>::empty(), text);
    assert(Seq::<char>::empty() + text =~= text);
    // The format header.
    law_tag_reads_itself(head, t_major);
    lemma_digit1_prefix(seq!['1', '0'], t_dot);
    assert(seq!['1', '0'].drop_last() =~= seq!['1']);
    assert(seq!['1'].drop_last() =~= Seq::<char>::empty());
    assert(is_decimal_digit('1'));
    assert(crate::text::digit_value('1') == 1);
    assert(seq!['1'].last() == '1');
    assert(fold_digits(Seq::<char>::empty(), false, 0, 255) == Ok::<int, IntErrorKind>(0));
    assert(fold_digits(seq!['1'], false, 0, 255) == Ok::<int, IntErrorKind>(1));
    assert(fold_digits(seq!['1', '0'], false, 0, 255) == Ok::<int, IntErrorKind>(10));
    assert(spec_parse_u8(seq!['1', '0']) == Ok::<u8, IntErrorKind>(10u8));
    law_tag_reads_itself("."@, t_minor);
    assert(seq!['.'] =~= "."@);
    lemma_digit1_prefix(seq!['0', '0'], after_minor);
    assert(seq!['0', '0'].drop_last() =~= seq!['0']);
    assert(seq!['0'].drop_last() =~= Seq::<char>::empty());
    assert(fold_digits(seq!['0'], false, 0, 255) == Ok::<int, IntErrorKind>(0));
    assert(fold_digits(seq!['0', '0'], false, 0, 255) == Ok::<int, IntErrorKind>(0));
    assert(spec_parse_u8(seq!['0', '0']) == Ok::<u8, IntErrorKind>(0u8));
    assert(spec_sln_version(text) == Ok::<(Seq<char>, (u8, u8)), (Seq<char>, SlnErrorKind)>(
        (after_minor, (10u8, 0u8)),
    ));
    // The version line.
    assert(all_space(seq!['\r', '\n']));
    assert(t_vs[0] == '#');
    lemma_sp_prefix(seq!['\r', '\n'], t_vs);
    law_tag_reads_itself(vs, t_year);
    lemma_digit1_prefix(seq!['2', '0', '0', '8'], after_year);
    let y = seq!['2', '0', '0', '8'];
    assert(y.drop_last() =~= seq!['2', '0', '0']);
    assert(seq!['2', '0', '0'].drop_last() =~= seq!['2', '0']);
    assert(seq!['2', '0'].drop_last() =~= seq!['2']);
    assert(seq!['2'].drop_last() =~= Seq::<char>::empty());
    assert(fold_digits(Seq::<char>::empty(), false, 0, 65535) == Ok::<int, IntErrorKind>(0));
    assert(is_decimal_digit('2') && crate::text::digit_value('2') == 2);
    assert(is_decimal_digit('8') && crate::text::digit_value('8') == 8);
    assert(fold_digits(seq!['2'], false, 0, 65535) == Ok::<int, IntErrorKind>(2));
    assert(fold_digits(seq!['2', '0'], false, 0, 65535) == Ok::<int, IntErrorKind>(20));
    assert(fold_digits(seq!['2', '0', '0'], false, 0, 65535) == Ok::<int, IntErrorKind>(200));
    assert(fold_digits(y, false, 0, 65535) == Ok::<int, IntErrorKind>(2008));
    assert(spec_parse_u16(y) == Ok::<u16, IntErrorKind>(2008u16));
    assert(spec_vs_version(t_vs) == Ok::<(Seq<char>, u16), (Seq<char>, SlnErrorKind)>(
        (after_year, 2008u16),
    ));
    // The entries.
    law_sp_splits(x);
    let ws = seq!['\r', '\n'] + spec_sp(x).1;
    assert(all_space(ws)) by {
        assert forall|k: int| 0 <= k < ws.len() implies is_space(#[trigger] ws[k]) by {
            if k >= 2 {
                assert(ws[k] == spec_sp(x).1[k - 2]);
            }
        }
    }
    assert(after_year =~= ws + spec_sp(x).0);
    lemma_sp_prefix(ws, spec_sp(x).0);
    if es.len() == 0 {
        assert(x =~= rest);
        law_sp_again(rest);
        assert(es.map_values(|e: EntryText| entry_model(e)) =~= Seq::<ProjectModel>::empty());
    } else {
        let first = project_entry(es[0].up, es[0].name, es[0].path, es[0].uuid);
        assert(x =~= first + (entries_text(es.skip(1)) + rest));
        assert(x[0] == 'P');
        lemma_sp_prefix(Seq::<char>::empty(), x);
        assert(Seq::<char>::empty() + x =~= x);
        law_project_entries(es, rest);
    }
}

} // verus!
