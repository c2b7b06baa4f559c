//! Parsing the variable list of a SPICE raw file.
use crate::gds::read::utf8_to_string;
use vstd::prelude::*;
use vstd::utf8::{decode_utf8, valid_utf8};

verus! {

/// A space or a tab.
pub open spec fn is_blank(b: u8) -> bool {
    b == 0x20u8 || b == 0x09u8
}

/// A decimal digit.
pub open spec fn is_digit(b: u8) -> bool {
    0x30u8 <= b <= 0x39u8
}

/// A byte of a name or a type: anything but blanks and line breaks.
pub open spec fn is_word(b: u8) -> bool {
    !(is_blank(b) || b == 0x0du8 || b == 0x0au8)
}

/// The end of the run of blanks starting at `i`.
pub open spec fn blanks_end(s: Seq<u8>, i: int) -> int
    decreases s.len() - i,
{
    if 0 <= i < s.len() && is_blank(s[i]) {
        blanks_end(s, i + 1)
    } else {
        i
    }
}

/// The end of the run of digits starting at `i`.
pub open spec fn digits_end(s: Seq<u8>, i: int) -> int
    decreases s.len() - i,
{
    if 0 <= i < s.len() && is_digit(s[i]) {
        digits_end(s, i + 1)
    } else {
        i
    }
}

/// The end of the run of word bytes starting at `i`.
pub open spec fn word_end(s: Seq<u8>, i: int) -> int
    decreases s.len() - i,
{
    if 0 <= i < s.len() && is_word(s[i]) {
        word_end(s, i + 1)
    } else {
        i
    }
}

/// The decimal value of the digits `s[i..j]`.
pub open spec fn digits_value(s: Seq<u8>, i: int, j: int) -> nat
    decreases j - i,
{
    if j <= i {
        0
    } else {
        digits_value(s, i, j - 1) * 10 + (s[j - 1] - 0x30u8) as nat
    }
}

/// The position after a line break at `i` (`\n` or `\r\n`), if there is one.
pub open spec fn line_break_end(s: Seq<u8>, i: int) -> Option<int> {
    if 0 <= i < s.len() && s[i] == 0x0au8 {
        Some(i + 1)
    } else if 0 <= i && i + 1 < s.len() && s[i] == 0x0du8 && s[i + 1] == 0x0au8 {
        Some(i + 2)
    } else {
        None
    }
}

/// The text of the UTF-8 bytes `s[i..j]`, if they are valid UTF-8.
pub open spec fn text_of(s: Seq<u8>, i: int, j: int) -> Option<Seq<char>> {
    if valid_utf8(s.subrange(i, j)) {
        Some(decode_utf8(s.subrange(i, j)))
    } else {
        None
    }
}

/// A variable of a raw file: its index, name and type.
pub struct VariableView {
    pub idx: usize,
    pub name: Seq<char>,
    pub unit: Seq<char>,
}

/// The variable line at the start of `s`, and the position after it: optional blanks,
/// a decimal index that fits in `usize`, blanks, a name, blanks, a type, optional
/// blanks and a line break.
pub open spec fn variable_at(s: Seq<u8>) -> Option<(VariableView, int)> {
    let i1 = blanks_end(s, 0);
    let i2 = digits_end(s, i1);
    let i3 = blanks_end(s, i2);
    let i4 = word_end(s, i3);
    let i5 = blanks_end(s, i4);
    let i6 = word_end(s, i5);
    let i7 = blanks_end(s, i6);
    if i2 == i1 || digits_value(s, i1, i2) > usize::MAX || i3 == i2 || i4 == i3 || i5 == i4 || i6
        == i5 {
        None
    } else {
        match (text_of(s, i3, i4), text_of(s, i5, i6), line_break_end(s, i7)) {
            (Some(name), Some(unit), Some(end)) => Some(
                (VariableView { idx: digits_value(s, i1, i2) as usize, name, unit }, end),
            ),
            _ => None,
        }
    }
}

/// The variables of the lines at the start of `s`, up to the first line that is not one.
pub open spec fn variables_from(s: Seq<u8>) -> (Seq<VariableView>, int)
    decreases s.len(),
{
    match variable_at(s) {
        Some((v, end)) => if 0 < end <= s.len() {
            let (rest, used) = variables_from(s.subrange(end, s.len() as int));
            (seq![v] + rest, end + used)
        } else {
            (seq![], 0)
        },
        None => (seq![], 0),
    }
}

/// The ASCII bytes of `Variables:`.
pub open spec fn header_bytes() -> Seq<u8> {
    seq![86u8, 97u8, 114u8, 105u8, 97u8, 98u8, 108u8, 101u8, 115u8, 58u8]
}

/// The header `Variables:` with optional trailing blanks and a line break, at the start of
/// `s`: the position after it, if it is there.
pub open spec fn header_end(s: Seq<u8>) -> Option<int> {
    if s.len() >= 10 && s.subrange(0, 10) == header_bytes() {
        line_break_end(s, blanks_end(s, 10))
    } else {
        None
    }
}

/// A variable of a raw file.
#[derive(Debug, Clone, PartialEq, Eq)]
pub struct Variable {
    /// The index of the variable.
    pub idx: usize,
    /// The name of the variable.
    pub name: String,
    /// The type of the variable.
    pub unit: String,
}

impl View for Variable {
    type V = VariableView;

    open spec fn view(&self) -> VariableView {
        VariableView { idx: self.idx, name: self.name@, unit: self.unit@ }
    }
}

/// The views of a sequence of variables.
pub open spec fn vars_view(v: Seq<Variable>) -> Seq<VariableView> {
    v.map_values(|x: Variable| x@)
}

/// A failure to parse.
#[derive(Debug, Clone, Copy, PartialEq, Eq, Structural)]
pub enum RawfileError {
    /// The input does not start with what was expected.
    Mismatch,
}

/// The end of the run of blanks starting at `i`.
fn skip_blanks(s: &[u8], i: usize) -> (r: usize)
    requires
        i <= s@.len(),
    ensures
        r == blanks_end(s@, i as int),
        i <= r <= s@.len(),
{
    let mut k = i;
    while k < s.len() && (s[k] == 0x20u8 || s[k] == 0x09u8)
        invariant
            i <= k <= s@.len(),
            blanks_end(s@, k as int) == blanks_end(s@, i as int),
        decreases s@.len() - k,
    {
        k = k + 1;
    }
    k
}

/// The end of the run of word bytes starting at `i`.
fn skip_word(s: &[u8], i: usize) -> (r: usize)
    requires
        i <= s@.len(),
    ensures
        r == word_end(s@, i as int),
        i <= r <= s@.len(),
{
    let mut k = i;
    while k < s.len() && !(s[k] == 0x20u8 || s[k] == 0x09u8 || s[k] == 0x0du8 || s[k] == 0x0au8)
        invariant
            i <= k <= s@.len(),
            word_end(s@, k as int) == word_end(s@, i as int),
        decreases s@.len() - k,
    {
        k = k + 1;
    }
    k
}

/// A longer run of digits has a value at least as large.
proof fn lemma_digits_monotone(s: Seq<u8>, i: int, j: int, k: int)
    requires
        i <= j <= k,
    ensures
        digits_value(s, i, j) <= digits_value(s, i, k),
    decreases k - j,
{
    if j < k {
        lemma_digits_monotone(s, i, j, k - 1);
    }
}

/// The end of the run of digits at `i` and their value, or `None` for the value where it
/// does not fit in `usize`.
fn scan_digits(s: &[u8], i: usize) -> (r: (usize, Option<usize>))
    requires
        i <= s@.len(),
    ensures
        r.0 == digits_end(s@, i as int),
        i <= r.0 <= s@.len(),
        r.1 matches Some(v) ==> v == digits_value(s@, i as int, r.0 as int),
        r.1 is None <==> digits_value(s@, i as int, r.0 as int) > usize::MAX,
{
    let mut k = i;
    let mut acc: Option<usize> = Some(0);
    while k < s.len() && 0x30u8 <= s[k] && s[k] <= 0x39u8
        invariant
            i <= k <= s@.len(),
            digits_end(s@, k as int) == digits_end(s@, i as int),
            acc matches Some(v) ==> v == digits_value(s@, i as int, k as int),
            acc is None ==> digits_value(s@, i as int, k as int) > usize::MAX,
        decreases s@.len() - k,
    {
        let d = (s[k] - 0x30u8) as usize;
        acc = match acc {
            Some(v) => match v.checked_mul(10) {
                Some(t) => t.checked_add(d),
                None => None,
            },
            None => None,
        };
        proof {
            lemma_digits_monotone(s@, i as int, k as int, k + 1);
        }
        k = k + 1;
    }
    (k, acc)
}

/// The line break at `i`: the position after it, if there is one.
fn skip_line_break(s: &[u8], i: usize) -> (r: Option<usize>)
    requires
        i <= s@.len(),
    ensures
        r matches Some(e) ==> line_break_end(s@, i as int) == Some(e as int) && i < e <= s@.len(),
        r is None ==> line_break_end(s@, i as int) is None,
{
    if i < s.len() && s[i] == 0x0au8 {
        Some(i + 1)
    } else if i < s.len() && i + 1 < s.len() && s[i] == 0x0du8 && s[i + 1] == 0x0au8 {
        Some(i + 2)
    } else {
        None
    }
}

/// The text of the bytes `s[i..j]`, if they are valid UTF-8.
fn text(s: &[u8], i: usize, j: usize) -> (r: Option<String>)
    requires
        i <= j <= s@.len(),
    ensures
        r matches Some(t) ==> text_of(s@, i as int, j as int) == Some(t@),
        r is None ==> text_of(s@, i as int, j as int) is None,
{
    let part = &s[i..j];
    assert(part@ =~= s@.subrange(i as int, j as int));
    utf8_to_string(part)
}

/// Parses one variable line at the start of `input`, returning the rest of the input and
/// the variable.
pub fn variable(input: &[u8]) -> (r: Result<(&[u8], Variable), RawfileError>)
    ensures
        match variable_at(input@) {
            Some((v, end)) => r matches Ok((rest, x)) && x@ == v && rest@ == input@.subrange(
                end,
                input@.len() as int,
            ),
            None => r == Err::<(&[u8], Variable), RawfileError>(RawfileError::Mismatch),
        },
        variable_at(input@) matches Some((v, end)) ==> 0 < end <= input@.len(),
{
    let s = input;
    let i1 = skip_blanks(s, 0);
    let (i2, idx) = scan_digits(s, i1);
    let i3 = skip_blanks(s, i2);
    let i4 = skip_word(s, i3);
    let i5 = skip_blanks(s, i4);
    let i6 = skip_word(s, i5);
    let i7 = skip_blanks(s, i6);
    let idx = match idx {
        Some(v) => v,
        None => {
            return Err(RawfileError::Mismatch);
        },
    };
    if i2 == i1 || i3 == i2 || i4 == i3 || i5 == i4 || i6 == i5 {
        return Err(RawfileError::Mismatch);
    }
    let name = match text(s, i3, i4) {
        Some(t) => t,
        None => {
            return Err(RawfileError::Mismatch);
        },
    };
    let unit = match text(s, i5, i6) {
        Some(t) => t,
        None => {
            return Err(RawfileError::Mismatch);
        },
    };
    let end = match skip_line_break(s, i7) {
        Some(e) => e,
        None => {
            return Err(RawfileError::Mismatch);
        },
    };
    let rest = &s[end..s.len()];
    assert(rest@ =~= s@.subrange(end as int, s@.len() as int));
    Ok((rest, Variable { idx, name, unit }))
}

/// Parses the variables section at the start of `input`: the `Variables:` header line,
/// then variable lines up to the first line that is not one. Returns the rest of the
/// input and the variables.
pub fn variables(input: &[u8]) -> (r: Result<(&[u8], Vec<Variable>), RawfileError>)
    ensures
        match header_end(input@) {
            Some(h) => r matches Ok((rest, vars)) && ({
                let (vs, used) = variables_from(input@.subrange(h, input@.len() as int));
                vars_view(vars@) == vs && rest@ == input@.subrange(
                    h + used,
                    input@.len() as int,
                )
            }),
            None => r == Err::<(&[u8], Vec<Variable>), RawfileError>(RawfileError::Mismatch),
        },
{
    let hb: [u8; 10] = [86u8, 97u8, 114u8, 105u8, 97u8, 98u8, 108u8, 101u8, 115u8, 58u8];
    assert(hb@ == header_bytes());
    if input.len() < 10 {
        return Err(RawfileError::Mismatch);
    }
    let mut k: usize = 0;
    while k < 10
        invariant
            k <= 10,
            input@.len() >= 10,
            hb@ == header_bytes(),
            forall|j: int| 0 <= j < k ==> input@[j] == #[trigger] header_bytes()[j],
        decreases 10 - k,
    {
        if input[k] != hb[k] {
            assert(input@.subrange(0, 10)[k as int] != header_bytes()[k as int]);
            return Err(RawfileError::Mismatch);
        }
        k = k + 1;
    }
    assert(input@.subrange(0, 10) =~= header_bytes());
    let b = skip_blanks(input, 10);
    let h = match skip_line_break(input, b) {
        Some(h) => h,
        None => {
            return Err(RawfileError::Mismatch);
        },
    };
    let mut rest = &input[h..input.len()];
    let mut vars: Vec<Variable> = Vec::new();
    let ghost start = input@.subrange(h as int, input@.len() as int);
    assert(rest@ =~= start);
    loop
        invariant
            ({
                let (vs, used) = variables_from(start);
                let (vs2, used2) = variables_from(rest@);
                &&& vs == vars_view(vars@) + vs2
                &&& start.len() - rest@.len() + used2 == used
                &&& rest@ == start.subrange(start.len() - rest@.len(), start.len() as int)
            }),
            rest@.len() <= start.len(),
            start == input@.subrange(h as int, input@.len() as int),
            h <= input@.len(),
            header_end(input@) == Some(h as int),
        decreases rest@.len(),
    {
        match variable(rest) {
            Ok((r2, v)) => {
                let ghost before = vars@;
                vars.push(v);
                assert(vars_view(vars@) =~= vars_view(before).push(v@));
                proof {
                    let (vs2, used2) = variables_from(rest@);
                    let (vs3, used3) = variables_from(r2@);
                    assert(vs2 =~= seq![v@] + vs3);
                    assert(vars_view(vars@) + vs3 =~= vars_view(before) + vs2);
                    assert(r2@ =~= start.subrange(start.len() - r2@.len(), start.len() as int));
                }
                rest = r2;
            },
            Err(_) => {
                proof {
                    assert(variable_at(rest@) is None);
                    assert(variables_from(rest@) == (Seq::<VariableView>::empty(), 0int));
                    let (vs, used) = variables_from(start);
                    assert(vars_view(vars@) + Seq::<VariableView>::empty() =~= vars_view(vars@));
                    assert(used == start.len() - rest@.len());
                    assert(start.subrange(start.len() - rest@.len(), start.len() as int) =~= input@.subrange(h + used, input@.len() as int));
                    assert(header_end(input@) == Some(h as int));
                    assert(vars_view(vars@) == vs);
                    assert(rest@ == input@.subrange(h + used, input@.len() as int));
                    assert(rest@ =~= input@.subrange(h + used, input@.len() as int));
                }
                return Ok((rest, vars));
            },
        }
    }
}

} // verus!
