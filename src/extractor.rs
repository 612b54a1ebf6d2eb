//! Parameter declarations embedded in shader source.
//!
//! A declaration is a line of its own:
//!
//! ```text
//! #param name(min, max, default)
//! ```
//!
//! Leading and trailing blanks are allowed, as are blanks around the name,
//! the parentheses, the commas and the numbers. A name is a letter or `_`
//! followed by letters, digits and `_`. A number is an optional sign, one or
//! more digits, and optionally `.` followed by digits, with at most
//! `MAX_DIGITS` digits in all. Any line whose first non-blank text is
//! `#param` is a declaration and must have this form. Declaration lines are
//! blanked out of the cleaned source (their newline stays, so line numbers
//! reported by the shader compiler still match the file).
use vstd::prelude::*;
use crate::decimal::{Decimal, MAX_DIGITS, pow10, lemma_pow10_max};

verus! {

/// What a declaration states: a parameter's name, bounds and default.
#[derive(Clone, Debug)]
pub struct ParamDecl {
    pub name: Vec<u8>,
    pub min: Decimal,
    pub max: Decimal,
    pub default: Decimal,
}

/// The mathematical content of a `ParamDecl`.
pub struct ParamDeclView {
    pub name: Seq<u8>,
    pub min: Decimal,
    pub max: Decimal,
    pub default: Decimal,
}

impl View for ParamDecl {
    type V = ParamDeclView;

    open spec fn view(&self) -> ParamDeclView {
        ParamDeclView { name: self.name@, min: self.min, max: self.max, default: self.default }
    }
}

/// Why a source's declarations were refused.
#[derive(Clone, Copy, Debug, PartialEq, Eq, Structural)]
pub enum ExtractionError {
    /// A `#param` line that does not have the declaration's form.
    Malformed,
    /// A name that an earlier declaration already used.
    DuplicateName,
    /// A declaration whose `min` is greater than its `max`.
    InvertedBounds,
}

/// The kinds of byte the grammar skips over.
#[derive(Clone, Copy, Debug, PartialEq, Eq, Structural)]
pub enum ByteClass {
    Blank,
    Digit,
    NameByte,
}

pub open spec fn is_digit(c: u8) -> bool {
    48 <= c <= 57
}

pub open spec fn in_class(c: u8, k: ByteClass) -> bool {
    match k {
        ByteClass::Blank => c == 32 || c == 9 || c == 13,
        ByteClass::Digit => is_digit(c),
        ByteClass::NameByte => is_digit(c) || (65 <= c <= 90) || (97 <= c <= 122) || c == 95,
    }
}

fn in_class_exec(c: u8, k: ByteClass) -> (r: bool)
    ensures
        r == in_class(c, k),
{
    match k {
        ByteClass::Blank => c == 32 || c == 9 || c == 13,
        ByteClass::Digit => 48 <= c && c <= 57,
        ByteClass::NameByte => (48 <= c && c <= 57) || (65 <= c && c <= 90) || (97 <= c && c
            <= 122) || c == 95,
    }
}

/// The first position at or after `i` that does not hold a byte of class `k`.
pub open spec fn skip(l: Seq<u8>, i: int, k: ByteClass) -> int
    decreases l.len() - i,
{
    if 0 <= i < l.len() && in_class(l[i], k) {
        skip(l, i + 1, k)
    } else {
        i
    }
}

pub proof fn lemma_skip_bounds(l: Seq<u8>, i: int, k: ByteClass)
    requires
        0 <= i <= l.len(),
    ensures
        i <= skip(l, i, k) <= l.len(),
        forall|j: int| i <= j < skip(l, i, k) ==> in_class(#[trigger] l[j], k),
    decreases l.len() - i,
{
    if i < l.len() && in_class(l[i], k) {
        lemma_skip_bounds(l, i + 1, k);
    }
}

fn skip_exec(l: &[u8], i: usize, k: ByteClass) -> (r: usize)
    requires
        i <= l@.len(),
    ensures
        r == skip(l@, i as int, k),
        i <= r <= l@.len(),
{
    let mut j = i;
    while j < l.len() && in_class_exec(l[j], k)
        invariant
            i <= j <= l@.len(),
            skip(l@, i as int, k) == skip(l@, j as int, k),
        decreases l@.len() - j,
    {
        j = j + 1;
    }
    j
}

/// The digits `l[i..j]` read left to right after the value `v`: each step
/// multiplies by ten and adds the next digit.
pub open spec fn digits_value(l: Seq<u8>, i: int, j: int, v: nat) -> nat
    decreases j - i,
{
    if i >= j {
        v
    } else {
        digits_value(l, i + 1, j, v * 10 + (l[i] - 48) as nat)
    }
}

/// The number that starts at `i`, with the position just after it, if the
/// text there is a number.
pub open spec fn parse_number(l: Seq<u8>, i: int) -> Option<(Decimal, int)> {
    let signed = 0 <= i < l.len() && (l[i] == 45 || l[i] == 43);
    let negative = 0 <= i < l.len() && l[i] == 45;
    let s = if signed { i + 1 } else { i };
    let e1 = skip(l, s, ByteClass::Digit);
    let has_fraction = 0 <= e1 < l.len() && l[e1] == 46;
    let f = if has_fraction { e1 + 1 } else { e1 };
    let e2 = skip(l, f, ByteClass::Digit);
    if e1 == s || (e1 - s) + (e2 - f) > MAX_DIGITS {
        None
    } else {
        let magnitude = digits_value(l, f, e2, digits_value(l, s, e1, 0));
        let mantissa = if negative { -magnitude } else { magnitude as int };
        Some((Decimal { mantissa: mantissa as i64, scale: (e2 - f) as u32 }, e2))
    }
}

/// Reads the digits `l[i..j]` after `v`, as long as they stay under `10^MAX_DIGITS`.
fn read_digits(l: &[u8], i: usize, j: usize, v: u64, Ghost(n): Ghost<nat>) -> (r: u64)
    requires
        i <= j <= l@.len(),
        forall|p: int| i <= p < j ==> is_digit(#[trigger] l@[p]),
        v < pow10(n),
        n + (j - i) <= MAX_DIGITS,
    ensures
        r == digits_value(l@, i as int, j as int, v as nat),
        r < pow10((n + (j - i)) as nat),
{
    let mut acc = v;
    let mut p = i;
    while p < j
        invariant
            i <= p <= j <= l@.len(),
            forall|q: int| i <= q < j ==> is_digit(#[trigger] l@[q]),
            n + (j - i) <= MAX_DIGITS,
            acc < pow10((n + (p - i)) as nat),
            digits_value(l@, i as int, j as int, v as nat) == digits_value(
                l@,
                p as int,
                j as int,
                acc as nat,
            ),
        decreases j - p,
    {
        let d = l[p] - 48;
        proof {
            let m = (n + (p - i)) as nat;
            assert(pow10(m + 1) == 10 * pow10(m));
            crate::decimal::lemma_pow10_monotone(m + 1, MAX_DIGITS as nat);
            lemma_pow10_max();
            assert(acc * 10 + d < 10 * pow10(m)) by (nonlinear_arith)
                requires
                    acc < pow10(m),
                    d <= 9,
            ;
        }
        acc = acc * 10 + d as u64;
        p = p + 1;
    }
    acc
}

/// Reads the number that starts at `i`, with the position just after it.
pub fn parse_number_exec(l: &[u8], i: usize) -> (r: Option<(Decimal, usize)>)
    requires
        i <= l@.len(),
    ensures
        r matches Some(x) ==> parse_number(l@, i as int) == Some((x.0, x.1 as int)) && x.0.wf()
            && i < x.1 <= l@.len(),
        r is None ==> parse_number(l@, i as int) is None,
{
    let signed = i < l.len() && (l[i] == 45 || l[i] == 43);
    let negative = i < l.len() && l[i] == 45;
    let s = if signed { i + 1 } else { i };
    let e1 = skip_exec(l, s, ByteClass::Digit);
    let has_fraction = e1 < l.len() && l[e1] == 46;
    let f = if has_fraction { e1 + 1 } else { e1 };
    let e2 = skip_exec(l, f, ByteClass::Digit);
    if e1 == s || (e1 - s) + (e2 - f) > MAX_DIGITS as usize {
        return None;
    }
    proof {
        lemma_skip_bounds(l@, s as int, ByteClass::Digit);
        lemma_skip_bounds(l@, f as int, ByteClass::Digit);
        assert(pow10(0) == 1);
    }
    let whole = read_digits(l, s, e1, 0, Ghost(0));
    let magnitude = read_digits(l, f, e2, whole, Ghost((e1 - s) as nat));
    proof {
        crate::decimal::lemma_pow10_monotone(((e1 - s) + (e2 - f)) as nat, MAX_DIGITS as nat);
        lemma_pow10_max();
    }
    let mantissa: i64 = if negative { -(magnitude as i64) } else { magnitude as i64 };
    Some((Decimal { mantissa, scale: (e2 - f) as u32 }, e2))
}

/// `#param`, the text that opens a declaration.
pub open spec fn keyword() -> Seq<u8> {
    seq![35u8, 112u8, 97u8, 114u8, 97u8, 109u8]
}

pub open spec fn keyword_at(l: Seq<u8>, i: int) -> bool {
    0 <= i && i + 6 <= l.len() && l.subrange(i, i + 6) == keyword()
}

/// What one line of source is.
pub enum LineKind {
    Code,
    Malformed,
    Declaration(ParamDeclView),
}

/// Blanks, a number, blanks, then the byte `term`: the number and the
/// position after `term`.
pub open spec fn parse_field(l: Seq<u8>, i: int, term: u8) -> Option<(Decimal, int)> {
    match parse_number(l, skip(l, i, ByteClass::Blank)) {
        None => None,
        Some((d, e)) => {
            let q = skip(l, e, ByteClass::Blank);
            if 0 <= q < l.len() && l[q] == term {
                Some((d, q + 1))
            } else {
                None
            }
        },
    }
}

/// Classifies a line (without its newline) by the declaration grammar.
pub open spec fn parse_line(l: Seq<u8>) -> LineKind {
    let k = skip(l, 0, ByteClass::Blank);
    if !keyword_at(l, k) {
        LineKind::Code
    } else {
        let n0 = skip(l, k + 6, ByteClass::Blank);
        let n1 = skip(l, n0, ByteClass::NameByte);
        let open = skip(l, n1, ByteClass::Blank);
        if n0 == k + 6 || n1 == n0 || is_digit(l[n0]) || !(open < l.len() && l[open] == 40) {
            LineKind::Malformed
        } else {
            match parse_field(l, open + 1, 44) {
                None => LineKind::Malformed,
                Some((lo, a)) => match parse_field(l, a, 44) {
                    None => LineKind::Malformed,
                    Some((hi, b)) => match parse_field(l, b, 41) {
                        None => LineKind::Malformed,
                        Some((dv, c)) => if skip(l, c, ByteClass::Blank) != l.len() {
                            LineKind::Malformed
                        } else {
                            LineKind::Declaration(
                                ParamDeclView {
                                    name: l.subrange(n0, n1),
                                    min: lo,
                                    max: hi,
                                    default: dv,
                                },
                            )
                        },
                    },
                },
            }
        }
    }
}

/// A line classified by the declaration grammar.
pub enum Line {
    Code,
    Malformed,
    Declaration(ParamDecl),
}

fn keyword_at_exec(l: &[u8], i: usize) -> (r: bool)
    requires
        i <= l@.len(),
    ensures
        r == keyword_at(l@, i as int),
{
    if l.len() < 6 || i > l.len() - 6 {
        return false;
    }
    let r = l[i] == 35 && l[i + 1] == 112 && l[i + 2] == 97 && l[i + 3] == 114 && l[i + 4] == 97
        && l[i + 5] == 109;
    assert(r ==> l@.subrange(i as int, i + 6) =~= keyword());
    assert(l@.subrange(i as int, i + 6) == keyword() ==> r) by {
        if l@.subrange(i as int, i + 6) == keyword() {
            assert(l@.subrange(i as int, i + 6)[1] == l@[i + 1]);
            assert(l@.subrange(i as int, i + 6)[2] == l@[i + 2]);
            assert(l@.subrange(i as int, i + 6)[3] == l@[i + 3]);
            assert(l@.subrange(i as int, i + 6)[4] == l@[i + 4]);
            assert(l@.subrange(i as int, i + 6)[5] == l@[i + 5]);
        }
    }
    r
}

fn parse_field_exec(l: &[u8], i: usize, term: u8) -> (r: Option<(Decimal, usize)>)
    requires
        i <= l@.len(),
    ensures
        r matches Some(x) ==> parse_field(l@, i as int, term) == Some((x.0, x.1 as int))
            && x.0.wf() && i < x.1 <= l@.len(),
        r is None ==> parse_field(l@, i as int, term) is None,
{
    let p = skip_exec(l, i, ByteClass::Blank);
    match parse_number_exec(l, p) {
        None => None,
        Some((d, e)) => {
            let q = skip_exec(l, e, ByteClass::Blank);
            if q < l.len() && l[q] == term {
                Some((d, q + 1))
            } else {
                None
            }
        },
    }
}

/// Copies `l[i..j]`.
fn copy_range(l: &[u8], i: usize, j: usize) -> (r: Vec<u8>)
    requires
        i <= j <= l@.len(),
    ensures
        r@ == l@.subrange(i as int, j as int),
{
    let mut r: Vec<u8> = Vec::new();
    let mut p = i;
    while p < j
        invariant
            i <= p <= j <= l@.len(),
            r@ == l@.subrange(i as int, p as int),
        decreases j - p,
    {
        r.push(l[p]);
        p = p + 1;
    }
    r
}

/// Classifies one line (without its newline).
pub fn parse_line_exec(l: &[u8]) -> (r: Line)
    ensures
        match (r, parse_line(l@)) {
            (Line::Code, LineKind::Code) => true,
            (Line::Malformed, LineKind::Malformed) => true,
            (Line::Declaration(d), LineKind::Declaration(v)) => d@ == v && d.min.wf()
                && d.max.wf() && d.default.wf(),
            _ => false,
        },
{
    let k = skip_exec(l, 0, ByteClass::Blank);
    if !keyword_at_exec(l, k) {
        return Line::Code;
    }
    let len = l.len();
    assert(k + 6 <= len);
    let n0 = skip_exec(l, k + 6, ByteClass::Blank);
    let n1 = skip_exec(l, n0, ByteClass::NameByte);
    let open = skip_exec(l, n1, ByteClass::Blank);
    if n0 == k + 6 || n1 == n0 || (48 <= l[n0] && l[n0] <= 57) || !(open < l.len() && l[open]
        == 40) {
        return Line::Malformed;
    }
    let (lo, a) = match parse_field_exec(l, open + 1, 44) {
        None => return Line::Malformed,
        Some(x) => x,
    };
    let (hi, b) = match parse_field_exec(l, a, 44) {
        None => return Line::Malformed,
        Some(x) => x,
    };
    let (dv, c) = match parse_field_exec(l, b, 41) {
        None => return Line::Malformed,
        Some(x) => x,
    };
    if skip_exec(l, c, ByteClass::Blank) != l.len() {
        return Line::Malformed;
    }
    let name = copy_range(l, n0, n1);
    Line::Declaration(ParamDecl { name, min: lo, max: hi, default: dv })
}

/// The position of the newline that ends the line starting at `i`, or the
/// end of the text.
pub open spec fn line_end(s: Seq<u8>, i: int) -> int
    decreases s.len() - i,
{
    if 0 <= i < s.len() && s[i] != 10 {
        line_end(s, i + 1)
    } else {
        i
    }
}

pub proof fn lemma_line_end(s: Seq<u8>, i: int)
    requires
        0 <= i <= s.len(),
    ensures
        i <= line_end(s, i) <= s.len(),
        line_end(s, i) < s.len() ==> s[line_end(s, i)] == 10,
        forall|k: int| i <= k < s.len() && s[k] == 10 ==> line_end(s, i) <= k,
    decreases s.len() - i,
{
    if i < s.len() && s[i] != 10 {
        lemma_line_end(s, i + 1);
    }
}

/// Where the line after the one starting at `i` starts.
pub open spec fn next_line(s: Seq<u8>, i: int) -> int {
    if line_end(s, i) < s.len() {
        line_end(s, i) + 1
    } else {
        s.len() as int
    }
}

/// Whether an earlier declaration in `decls` has this name.
pub open spec fn name_taken(decls: Seq<ParamDeclView>, name: Seq<u8>) -> bool {
    exists|k: int| 0 <= k < decls.len() && #[trigger] decls[k].name == name
}

/// Extraction from the line that starts at `i` on, with the declarations
/// `decls` and the cleaned text `out` already taken from the lines before.
pub open spec fn scan(s: Seq<u8>, i: int, decls: Seq<ParamDeclView>, out: Seq<u8>) -> Result<
    (Seq<ParamDeclView>, Seq<u8>),
    ExtractionError,
>
    decreases s.len() - i,
    via scan_decreases
{
    if i < 0 || i >= s.len() {
        Ok((decls, out))
    } else {
        let e = line_end(s, i);
        let next = next_line(s, i);
        match parse_line(s.subrange(i, e)) {
            LineKind::Code => scan(s, next, decls, out + s.subrange(i, next)),
            LineKind::Malformed => Err(ExtractionError::Malformed),
            LineKind::Declaration(d) => if name_taken(decls, d.name) {
                Err(ExtractionError::DuplicateName)
            } else if !d.min.spec_le(d.max) {
                Err(ExtractionError::InvertedBounds)
            } else {
                scan(s, next, decls.push(d), out + s.subrange(e, next))
            },
        }
    }
}

#[via_fn]
proof fn scan_decreases(s: Seq<u8>, i: int, decls: Seq<ParamDeclView>, out: Seq<u8>) {
    if 0 <= i < s.len() {
        lemma_line_end(s, i);
    }
}

/// The declarations of a source, in order, and the source with their lines blanked.
pub open spec fn extraction(s: Seq<u8>) -> Result<(Seq<ParamDeclView>, Seq<u8>), ExtractionError> {
    scan(s, 0, seq![], seq![])
}

pub open spec fn views(v: Seq<ParamDecl>) -> Seq<ParamDeclView> {
    v.map_values(|d: ParamDecl| d@)
}

/// A source with its declarations taken out.
#[derive(Clone, Debug)]
pub struct Extraction {
    /// The source with every declaration line blanked.
    pub source: Vec<u8>,
    /// The declarations, in the order of the source.
    pub params: Vec<ParamDecl>,
}

fn line_end_exec(s: &[u8], i: usize) -> (r: usize)
    requires
        i <= s@.len(),
    ensures
        r == line_end(s@, i as int),
{
    let mut j = i;
    while j < s.len() && s[j] != 10
        invariant
            i <= j <= s@.len(),
            line_end(s@, i as int) == line_end(s@, j as int),
        decreases s@.len() - j,
    {
        j = j + 1;
    }
    j
}

fn bytes_equal(a: &[u8], b: &[u8]) -> (r: bool)
    ensures
        r == (a@ == b@),
{
    if a.len() != b.len() {
        return false;
    }
    let mut k: usize = 0;
    while k < a.len()
        invariant
            k <= a@.len() == b@.len(),
            a@.subrange(0, k as int) == b@.subrange(0, k as int),
        decreases a@.len() - k,
    {
        if a[k] != b[k] {
            return false;
        }
        assert(a@.subrange(0, k + 1) =~= a@.subrange(0, k as int).push(a@[k as int]));
        assert(b@.subrange(0, k + 1) =~= b@.subrange(0, k as int).push(b@[k as int]));
        k = k + 1;
    }
    assert(a@ =~= a@.subrange(0, k as int));
    assert(b@ =~= b@.subrange(0, k as int));
    true
}

fn name_taken_exec(decls: &Vec<ParamDecl>, name: &[u8]) -> (r: bool)
    ensures
        r == name_taken(views(decls@), name@),
{
    let mut k: usize = 0;
    while k < decls.len()
        invariant
            k <= decls@.len(),
            forall|q: int| 0 <= q < k ==> decls@[q].name@ != name@,
        decreases decls@.len() - k,
    {
        if bytes_equal(decls[k].name.as_slice(), name) {
            assert(views(decls@)[k as int].name == name@);
            return true;
        }
        k = k + 1;
    }
    assert(!name_taken(views(decls@), name@)) by {
        assert forall|q: int| 0 <= q < views(decls@).len() implies #[trigger] views(
            decls@,
        )[q].name != name@ by {
            assert(views(decls@)[q] == decls@[q]@);
        }
    }
    false
}

fn append_range(out: &mut Vec<u8>, s: &[u8], i: usize, j: usize)
    requires
        i <= j <= s@.len(),
    ensures
        final(out)@ == old(out)@ + s@.subrange(i as int, j as int),
{
    let ghost start = out@;
    let mut p = i;
    while p < j
        invariant
            i <= p <= j <= s@.len(),
            out@ == start + s@.subrange(i as int, p as int),
        decreases j - p,
    {
        out.push(s[p]);
        p = p + 1;
        assert(out@ =~= start + s@.subrange(i as int, p as int));
    }
}

/// Takes the parameter declarations out of shader source. Succeeds with the
/// declarations in source order and the source with their lines blanked, or
/// fails as a whole on the first line that breaks the rules.
pub fn extract(src: &[u8]) -> (r: Result<Extraction, ExtractionError>)
    ensures
        match (r, extraction(src@)) {
            (Ok(x), Ok((d, o))) => views(x.params@) == d && x.source@ == o && forall|k: int|
                0 <= k < x.params@.len() ==> (#[trigger] x.params@[k]).min.wf()
                    && x.params@[k].max.wf() && x.params@[k].default.wf(),
            (Err(e), Err(f)) => e == f,
            _ => false,
        },
{
    let mut decls: Vec<ParamDecl> = Vec::new();
    let mut out: Vec<u8> = Vec::new();
    let mut i: usize = 0;
    assert(views(decls@) =~= seq![]);
    assert(out@ =~= seq![]);
    while i < src.len()
        invariant
            i <= src@.len(),
            extraction(src@) == scan(src@, i as int, views(decls@), out@),
            forall|k: int|
                0 <= k < decls@.len() ==> (#[trigger] decls@[k]).min.wf() && decls@[k].max.wf()
                    && decls@[k].default.wf(),
        decreases src@.len() - i,
    {
        let e = line_end_exec(src, i);
        proof {
            lemma_line_end(src@, i as int);
        }
        let next = if e < src.len() { e + 1 } else { e };
        let line = &src[i..e];
        assert(line@ == src@.subrange(i as int, e as int));
        match parse_line_exec(line) {
            Line::Code => {
                append_range(&mut out, src, i, next);
            },
            Line::Malformed => {
                return Err(ExtractionError::Malformed);
            },
            Line::Declaration(d) => {
                if name_taken_exec(&decls, d.name.as_slice()) {
                    return Err(ExtractionError::DuplicateName);
                }
                if !d.min.le(&d.max) {
                    return Err(ExtractionError::InvertedBounds);
                }
                append_range(&mut out, src, e, next);
                let ghost before = decls@;
                decls.push(d);
                assert(views(decls@) =~= views(before).push(d@));
            },
        }
        i = next;
    }
    Ok(Extraction { source: out, params: decls })
}

/// The declarations of the lines from the one starting at `i` on, in order,
/// whether or not they would be accepted.
pub open spec fn declarations(s: Seq<u8>, i: int) -> Seq<ParamDeclView>
    decreases s.len() - i,
    via declarations_decreases
{
    if i < 0 || i >= s.len() {
        seq![]
    } else {
        let rest = declarations(s, next_line(s, i));
        match parse_line(s.subrange(i, line_end(s, i))) {
            LineKind::Declaration(d) => seq![d] + rest,
            _ => rest,
        }
    }
}

#[via_fn]
proof fn declarations_decreases(s: Seq<u8>, i: int) {
    if 0 <= i < s.len() {
        lemma_line_end(s, i);
    }
}

proof fn lemma_scan_order(s: Seq<u8>, i: int, acc: Seq<ParamDeclView>, out: Seq<u8>)
    requires
        0 <= i,
        scan(s, i, acc, out) is Ok,
    ensures
        scan(s, i, acc, out)->Ok_0.0 == acc + declarations(s, i),
    decreases s.len() - i,
{
    if i < s.len() {
        lemma_line_end(s, i);
        let next = next_line(s, i);
        match parse_line(s.subrange(i, line_end(s, i))) {
            LineKind::Code => {
                lemma_scan_order(s, next, acc, out + s.subrange(i, next));
            },
            LineKind::Malformed => {},
            LineKind::Declaration(d) => {
                lemma_scan_order(s, next, acc.push(d), out + s.subrange(line_end(s, i), next));
                assert(acc.push(d) + declarations(s, next) =~= acc + (seq![d] + declarations(
                    s,
                    next,
                )));
            },
        }
    } else {
        assert(acc + declarations(s, i) =~= acc);
    }
}

/// Extraction keeps the source's order: when it succeeds, the parameters are
/// the declarations of the source's lines, first line first, each with its
/// name, bounds and default as written.
pub proof fn lemma_extraction_keeps_order(s: Seq<u8>)
    requires
        extraction(s) is Ok,
    ensures
        extraction(s)->Ok_0.0 == declarations(s, 0),
{
    lemma_scan_order(s, 0, seq![], seq![]);
    assert(seq![] + declarations(s, 0) =~= declarations(s, 0));
}

/// Whether a line starts at `i`.
pub open spec fn line_start(s: Seq<u8>, i: int) -> bool {
    i == 0 || (0 < i <= s.len() && s[i - 1] == 10)
}

/// Whether the line starting at `i` is a declaration that extraction refuses
/// on its own: malformed, or with `min` greater than `max`.
pub open spec fn refused_line(s: Seq<u8>, i: int) -> bool {
    match parse_line(s.subrange(i, line_end(s, i))) {
        LineKind::Malformed => true,
        LineKind::Declaration(d) => !d.min.spec_le(d.max),
        LineKind::Code => false,
    }
}

proof fn lemma_scan_reaches(s: Seq<u8>, j: int, i: int, acc: Seq<ParamDeclView>, out: Seq<u8>)
    requires
        0 <= j <= i < s.len(),
        line_start(s, j),
        line_start(s, i),
        refused_line(s, i),
    ensures
        scan(s, j, acc, out) is Err,
    decreases i - j,
{
    lemma_line_end(s, j);
    if j < i {
        let e = line_end(s, j);
        assert(s[i - 1] == 10);
        assert(e <= i - 1);
        let next = next_line(s, j);
        assert(line_start(s, next));
        match parse_line(s.subrange(j, e)) {
            LineKind::Code => {
                lemma_scan_reaches(s, next, i, acc, out + s.subrange(j, next));
            },
            LineKind::Malformed => {},
            LineKind::Declaration(d) => {
                lemma_scan_reaches(s, next, i, acc.push(d), out + s.subrange(e, next));
            },
        }
    }
}

/// Extraction is all or nothing: a single malformed declaration, or one
/// whose bounds are inverted, anywhere in the source makes it fail, with no
/// parameters at all.
pub proof fn lemma_extraction_all_or_nothing(s: Seq<u8>, i: int)
    requires
        0 <= i < s.len(),
        line_start(s, i),
        refused_line(s, i),
    ensures
        extraction(s) is Err,
{
    lemma_scan_reaches(s, 0, i, seq![], seq![]);
}

/// The name declared by the line starting at `i`, if it is a declaration.
pub open spec fn declared_name(s: Seq<u8>, i: int) -> Option<Seq<u8>> {
    match parse_line(s.subrange(i, line_end(s, i))) {
        LineKind::Declaration(d) => Some(d.name),
        _ => None,
    }
}

proof fn lemma_scan_taken(s: Seq<u8>, j: int, k: int, acc: Seq<ParamDeclView>, out: Seq<u8>)
    requires
        0 <= j <= k < s.len(),
        line_start(s, j),
        line_start(s, k),
        declared_name(s, k) matches Some(n) && name_taken(acc, n),
    ensures
        scan(s, j, acc, out) is Err,
    decreases k - j,
{
    lemma_line_end(s, j);
    if j < k {
        let e = line_end(s, j);
        assert(s[k - 1] == 10);
        let next = next_line(s, j);
        assert(line_start(s, next));
        match parse_line(s.subrange(j, e)) {
            LineKind::Code => {
                lemma_scan_taken(s, next, k, acc, out + s.subrange(j, next));
            },
            LineKind::Malformed => {},
            LineKind::Declaration(d) => {
                let n = declared_name(s, k)->Some_0;
                let w = choose|q: int| 0 <= q < acc.len() && #[trigger] acc[q].name == n;
                assert(acc.push(d)[w].name == n);
                lemma_scan_taken(s, next, k, acc.push(d), out + s.subrange(e, next));
            },
        }
    }
}

proof fn lemma_scan_duplicate(
    s: Seq<u8>,
    j: int,
    i: int,
    k: int,
    acc: Seq<ParamDeclView>,
    out: Seq<u8>,
)
    requires
        0 <= j <= i < k < s.len(),
        line_start(s, j),
        line_start(s, i),
        line_start(s, k),
        declared_name(s, i) is Some,
        declared_name(s, i) == declared_name(s, k),
    ensures
        scan(s, j, acc, out) is Err,
    decreases i - j,
{
    lemma_line_end(s, j);
    let e = line_end(s, j);
    let next = next_line(s, j);
    if j < i {
        assert(s[i - 1] == 10);
        assert(line_start(s, next));
        match parse_line(s.subrange(j, e)) {
            LineKind::Code => {
                lemma_scan_duplicate(s, next, i, k, acc, out + s.subrange(j, next));
            },
            LineKind::Malformed => {},
            LineKind::Declaration(d) => {
                lemma_scan_duplicate(s, next, i, k, acc.push(d), out + s.subrange(e, next));
            },
        }
    } else {
        assert(s[k - 1] == 10);
        assert(e <= k - 1);
        assert(line_start(s, next));
        let d = parse_line(s.subrange(j, e))->Declaration_0;
        let acc2 = acc.push(d);
        assert(acc2[acc.len() as int].name == d.name);
        if next < k {
            lemma_scan_taken(s, next, k, acc2, out + s.subrange(e, next));
        } else {
            assert(next == k);
            lemma_scan_taken(s, k, k, acc2, out + s.subrange(e, next));
        }
    }
}

/// Two declarations of one name anywhere in a source make extraction fail.
pub proof fn lemma_extraction_refuses_duplicates(s: Seq<u8>, i: int, k: int)
    requires
        0 <= i < k < s.len(),
        line_start(s, i),
        line_start(s, k),
        declared_name(s, i) is Some,
        declared_name(s, i) == declared_name(s, k),
    ensures
        extraction(s) is Err,
{
    lemma_scan_duplicate(s, 0, i, k, seq![], seq![]);
}

} // verus!
