//! Argument interpolation: replaces every `{{name}}` token in a template
//! with the rendered value bound to `name`, or with the literal marker `??`
//! when the arguments lack that name. Missing arguments never fail a lookup;
//! the marker is the deliberate degradation policy.
use vstd::prelude::*;

use crate::strutil::str_eq;

verus! {

/// A caller-supplied argument value: a string, an integer, or a boolean,
/// rendered to text when substituted into a template.
pub enum ArgValue {
    Text(String),
    Int(i64),
    Flag(bool),
}

/// The interpolation arguments: named values, looked up by the first entry
/// whose name matches a token's identifier.
pub struct Args {
    pub entries: Vec<(String, ArgValue)>,
}

/// The decimal digit character for `n` (a single digit).
pub open spec fn digit_char(n: nat) -> char {
    if n == 0 {
        '0'
    } else if n == 1 {
        '1'
    } else if n == 2 {
        '2'
    } else if n == 3 {
        '3'
    } else if n == 4 {
        '4'
    } else if n == 5 {
        '5'
    } else if n == 6 {
        '6'
    } else if n == 7 {
        '7'
    } else if n == 8 {
        '8'
    } else {
        '9'
    }
}

/// The decimal rendering of a natural number, most significant digit first.
pub open spec fn dec_nat(n: nat) -> Seq<char>
    decreases n,
{
    if n < 10 {
        seq![digit_char(n)]
    } else {
        dec_nat(n / 10).push(digit_char(n % 10))
    }
}

/// The decimal rendering of an integer: a minus sign before the magnitude
/// for negative values.
pub open spec fn dec_int(i: int) -> Seq<char> {
    if i < 0 {
        seq!['-'] + dec_nat((-i) as nat)
    } else {
        dec_nat(i as nat)
    }
}

/// How an argument value reads once substituted into a template.
pub open spec fn render_arg(v: ArgValue) -> Seq<char> {
    match v {
        ArgValue::Text(s) => s@,
        ArgValue::Int(i) => dec_int(i as int),
        ArgValue::Flag(b) => if b {
            seq!['t', 'r', 'u', 'e']
        } else {
            seq!['f', 'a', 'l', 's', 'e']
        },
    }
}

/// The arguments as mathematical pairs of name and rendered value.
pub open spec fn args_view(a: Args) -> Seq<(Seq<char>, Seq<char>)> {
    a.entries@.map_values(|p: (String, ArgValue)| (p.0@, render_arg(p.1)))
}

/// The rendered value bound to `name`, if any.
pub open spec fn arg_lookup(args: Seq<(Seq<char>, Seq<char>)>, name: Seq<char>) -> Option<
    Seq<char>,
>
    decreases args.len(),
{
    if args.len() == 0 {
        None
    } else if args[0].0 == name {
        Some(args[0].1)
    } else {
        arg_lookup(args.skip(1), name)
    }
}

/// What a token renders as: the bound value, or the `??` marker.
pub open spec fn arg_value(args: Seq<(Seq<char>, Seq<char>)>, name: Seq<char>) -> Seq<char> {
    match arg_lookup(args, name) {
        Some(v) => v,
        None => seq!['?', '?'],
    }
}

/// Characters an interpolation identifier may contain: ASCII word
/// characters and dots.
pub open spec fn is_ident_char(c: char) -> bool {
    ('a' <= c <= 'z') || ('A' <= c <= 'Z') || ('0' <= c <= '9') || c == '_' || c == '.'
}

/// The length of the run of identifier characters starting at `from`.
pub open spec fn ident_run(s: Seq<char>, from: int) -> int
    decreases s.len() - from,
{
    if from < 0 || from >= s.len() || !is_ident_char(s[from]) {
        0
    } else {
        1 + ident_run(s, from + 1)
    }
}

pub proof fn lemma_ident_run(s: Seq<char>, from: int)
    requires
        0 <= from <= s.len(),
    ensures
        0 <= ident_run(s, from),
        from + ident_run(s, from) <= s.len(),
        forall|j: int| from <= j < from + ident_run(s, from) ==> is_ident_char(s[j]),
        from + ident_run(s, from) == s.len() || !is_ident_char(s[from + ident_run(s, from)]),
    decreases s.len() - from,
{
    if from < s.len() && is_ident_char(s[from]) {
        lemma_ident_run(s, from + 1);
    }
}

/// True iff an interpolation token `{{ident}}` starts at position `i`: the
/// two braces, a maximal nonempty identifier run, then two closing braces.
pub open spec fn token_at(s: Seq<char>, i: int) -> bool {
    let k = ident_run(s, i + 2);
    &&& 0 <= i
    &&& i + 2 <= s.len()
    &&& s[i] == '{'
    &&& s[i + 1] == '{'
    &&& k >= 1
    &&& i + 4 + k <= s.len()
    &&& s[i + 2 + k] == '}'
    &&& s[i + 3 + k] == '}'
}

/// The identifier of the token starting at `i`.
pub open spec fn token_ident(s: Seq<char>, i: int) -> Seq<char> {
    s.subrange(i + 2, i + 2 + ident_run(s, i + 2))
}

/// The position just past the token starting at `i`.
pub open spec fn token_end(s: Seq<char>, i: int) -> int {
    i + 4 + ident_run(s, i + 2)
}

/// The interpolation of the suffix of `s` that starts at `i`: tokens render
/// as their argument value, every other character stays itself. The scan
/// never rescans a substituted value, exactly as a single left-to-right
/// replacement pass does.
pub open spec fn interp_from(s: Seq<char>, args: Seq<(Seq<char>, Seq<char>)>, i: int) -> Seq<char>
    decreases s.len() - i,
    via interp_from_decreases
{
    if i < 0 || i >= s.len() {
        Seq::<char>::empty()
    } else if token_at(s, i) {
        arg_value(args, token_ident(s, i)) + interp_from(s, args, token_end(s, i))
    } else {
        seq![s[i]] + interp_from(s, args, i + 1)
    }
}

#[via_fn]
proof fn interp_from_decreases(s: Seq<char>, args: Seq<(Seq<char>, Seq<char>)>, i: int) {
    if 0 <= i && i + 2 <= s.len() {
        lemma_ident_run(s, i + 2);
    }
}

/// The interpolation of a whole template.
pub open spec fn interp(s: Seq<char>, args: Seq<(Seq<char>, Seq<char>)>) -> Seq<char> {
    interp_from(s, args, 0)
}

/// Law: a token whose identifier the arguments lack renders as the literal
/// marker `??`; a missing interpolation argument never fails a lookup.
pub proof fn lemma_missing_arg_renders_marker(
    args: Seq<(Seq<char>, Seq<char>)>,
    name: Seq<char>,
)
    requires
        arg_lookup(args, name) is None,
    ensures
        arg_value(args, name) == seq!['?', '?'],
{
}

proof fn lemma_no_token_suffix(s: Seq<char>, args: Seq<(Seq<char>, Seq<char>)>, i: int)
    requires
        0 <= i <= s.len(),
        forall|j: int| 0 <= j < s.len() ==> !token_at(s, j),
    ensures
        interp_from(s, args, i) =~= s.skip(i),
    decreases s.len() - i,
{
    if i < s.len() {
        lemma_no_token_suffix(s, args, i + 1);
        assert(seq![s[i]] + s.skip(i + 1) =~= s.skip(i));
    }
}

/// Law: interpolation of a template without tokens is the identity, so the
/// no-op fast path — returning the template unchanged when no token matches
/// — returns exactly what interpolation would.
pub proof fn lemma_no_token_identity(s: Seq<char>, args: Seq<(Seq<char>, Seq<char>)>)
    requires
        forall|j: int| 0 <= j < s.len() ==> !token_at(s, j),
    ensures
        interp(s, args) == s,
{
    lemma_no_token_suffix(s, args, 0);
    assert(s.skip(0) =~= s);
}

impl Args {
    /// An empty argument map.
    pub fn new() -> (r: Args)
        ensures
            args_view(r) =~= Seq::<(Seq<char>, Seq<char>)>::empty(),
    {
        let entries: Vec<(String, ArgValue)> = Vec::new();
        proof {
            assert(Seq::<(String, ArgValue)>::empty().map_values(
                |p: (String, ArgValue)| (p.0@, render_arg(p.1)),
            ) =~= Seq::<(Seq<char>, Seq<char>)>::empty());
        }
        Args { entries }
    }

    /// Binds `name` to `value`; an earlier binding of the same name keeps
    /// priority, since lookups take the first match.
    pub fn push(&mut self, name: String, value: ArgValue)
        ensures
            args_view(*final(self)) =~= args_view(*old(self)).push(
                (name@, render_arg(value)),
            ),
    {
        let ghost before = self.entries@;
        self.entries.push((name, value));
        proof {
            assert(self.entries@ =~= before.push((name, value)));
        }
    }

    /// The rendered value bound to `name`, if the arguments contain one.
    pub fn find(&self, name: &str) -> (r: Option<String>)
        ensures
            match r {
                Some(s) => arg_lookup(args_view(*self), name@) == Some(s@),
                None => arg_lookup(args_view(*self), name@) is None,
            },
    {
        let n = self.entries.len();
        let mut i: usize = 0;
        proof {
            assert(args_view(*self).skip(0) =~= args_view(*self));
        }
        while i < n
            invariant
                i <= n,
                n == self.entries@.len(),
                arg_lookup(args_view(*self), name@) == arg_lookup(
                    args_view(*self).skip(i as int),
                    name@,
                ),
            decreases n - i,
        {
            proof {
                assert(args_view(*self).skip(i as int)[0] == args_view(*self)[i as int]);
                assert(args_view(*self).skip(i as int).skip(1) =~= args_view(*self).skip(
                    i as int + 1,
                ));
            }
            if str_eq(self.entries[i].0.as_str(), name) {
                return Some(render_arg_string(&self.entries[i].1));
            }
            i += 1;
        }
        None
    }
}

/// Appends the digit character for `d` to `out`.
fn push_digit(out: &mut String, d: u64)
    requires
        d < 10,
    ensures
        final(out)@ == old(out)@ + seq![digit_char(d as nat)],
{
    proof {
        reveal_strlit("0");
        reveal_strlit("1");
        reveal_strlit("2");
        reveal_strlit("3");
        reveal_strlit("4");
        reveal_strlit("5");
        reveal_strlit("6");
        reveal_strlit("7");
        reveal_strlit("8");
        reveal_strlit("9");
    }
    if d == 0 {
        out.append("0");
        proof {
            assert("0"@ =~= seq![digit_char(0)]);
        }
    } else if d == 1 {
        out.append("1");
        proof {
            assert("1"@ =~= seq![digit_char(1)]);
        }
    } else if d == 2 {
        out.append("2");
        proof {
            assert("2"@ =~= seq![digit_char(2)]);
        }
    } else if d == 3 {
        out.append("3");
        proof {
            assert("3"@ =~= seq![digit_char(3)]);
        }
    } else if d == 4 {
        out.append("4");
        proof {
            assert("4"@ =~= seq![digit_char(4)]);
        }
    } else if d == 5 {
        out.append("5");
        proof {
            assert("5"@ =~= seq![digit_char(5)]);
        }
    } else if d == 6 {
        out.append("6");
        proof {
            assert("6"@ =~= seq![digit_char(6)]);
        }
    } else if d == 7 {
        out.append("7");
        proof {
            assert("7"@ =~= seq![digit_char(7)]);
        }
    } else if d == 8 {
        out.append("8");
        proof {
            assert("8"@ =~= seq![digit_char(8)]);
        }
    } else {
        out.append("9");
        proof {
            assert("9"@ =~= seq![digit_char(9)]);
        }
    }
}

/// The digit characters of `ds` read back to front.
pub open spec fn rev_digit_chars(ds: Seq<u64>) -> Seq<char> {
    Seq::new(ds.len(), |i: int| digit_char(ds[ds.len() - 1 - i] as nat))
}

proof fn lemma_rev_digit_chars_push(ds: Seq<u64>, d: u64)
    ensures
        rev_digit_chars(ds.push(d)) =~= seq![digit_char(d as nat)] + rev_digit_chars(ds),
{
}

/// Renders `n` in decimal.
fn u64_to_decimal(n: u64) -> (r: String)
    ensures
        r@ == dec_nat(n as nat),
{
    let mut digits: Vec<u64> = Vec::new();
    let mut m: u64 = n;
    if m == 0 {
        let mut out = String::new();
        push_digit(&mut out, 0);
        return out;
    }
    while m > 0
        invariant
            m > 0 ==> dec_nat(n as nat) =~= dec_nat(m as nat) + rev_digit_chars(digits@),
            m == 0 ==> dec_nat(n as nat) =~= rev_digit_chars(digits@),
            forall|j: int| 0 <= j < digits@.len() ==> digits@[j] < 10,
        decreases m,
    {
        let ghost before = digits@;
        let d = m % 10;
        digits.push(d);
        proof {
            lemma_rev_digit_chars_push(before, d);
            if m >= 10 {
                assert(dec_nat(m as nat) == dec_nat((m as nat) / 10).push(
                    digit_char((m as nat) % 10),
                ));
                assert(dec_nat(m as nat) =~= dec_nat((m / 10) as nat) + seq![
                    digit_char(d as nat),
                ]);
            } else {
                assert(dec_nat(m as nat) =~= seq![digit_char(d as nat)]);
            }
        }
        m = m / 10;
    }
    let mut out = String::new();
    let total = digits.len();
    let mut j: usize = total;
    proof {
        assert(rev_digit_chars(digits@).take(0) =~= Seq::<char>::empty());
    }
    while j > 0
        invariant
            j <= total,
            total == digits@.len(),
            forall|t: int| 0 <= t < digits@.len() ==> digits@[t] < 10,
            dec_nat(n as nat) =~= rev_digit_chars(digits@),
            out@ =~= rev_digit_chars(digits@).take(total - j as int),
        decreases j,
    {
        j -= 1;
        push_digit(&mut out, digits[j]);
        proof {
            let rev = rev_digit_chars(digits@);
            assert(rev[total - j as int - 1] == digit_char(digits@[j as int] as nat));
            assert(rev.take(total - j as int) =~= rev.take(total - j as int - 1).push(
                rev[total - j as int - 1],
            ));
        }
    }
    proof {
        assert(rev_digit_chars(digits@).take(total as int) =~= rev_digit_chars(digits@));
    }
    out
}

/// Renders a signed integer in decimal.
pub fn int_to_decimal(v: i64) -> (r: String)
    ensures
        r@ == dec_int(v as int),
{
    if v >= 0 {
        u64_to_decimal(v as u64)
    } else {
        let mag: u64 = if v == i64::MIN {
            9223372036854775808u64
        } else {
            (-v) as u64
        };
        proof {
            assert(mag as nat == (-(v as int)) as nat);
        }
        let mut out = String::new();
        out.append("-");
        proof {
            reveal_strlit("-");
            assert("-"@ =~= seq!['-']);
        }
        let digits = u64_to_decimal(mag);
        out.append(digits.as_str());
        out
    }
}

/// Renders an argument value as the text substituted for a token.
pub fn render_arg_string(v: &ArgValue) -> (r: String)
    ensures
        r@ == render_arg(*v),
{
    match v {
        ArgValue::Text(s) => s.clone(),
        ArgValue::Int(i) => int_to_decimal(*i),
        ArgValue::Flag(b) => {
            if *b {
                let out = String::from_str("true");
                proof {
                    reveal_strlit("true");
                    assert("true"@ =~= seq!['t', 'r', 'u', 'e']);
                }
                out
            } else {
                let out = String::from_str("false");
                proof {
                    reveal_strlit("false");
                    assert("false"@ =~= seq!['f', 'a', 'l', 's', 'e']);
                }
                out
            }
        },
    }
}

fn is_ident_char_exec(c: char) -> (r: bool)
    ensures
        r == is_ident_char(c),
{
    ('a' <= c && c <= 'z') || ('A' <= c && c <= 'Z') || ('0' <= c && c <= '9') || c == '_' || c
        == '.'
}

/// Checks for a token at position `i`; returns the identifier length when
/// one starts there.
fn token_probe(s: &str, i: usize, len: usize) -> (r: Option<usize>)
    requires
        i < len,
        len == s@.len(),
    ensures
        match r {
            Some(k) => token_at(s@, i as int) && k == ident_run(s@, i as int + 2),
            None => !token_at(s@, i as int),
        },
{
    proof {
        if i + 2 <= s@.len() {
            lemma_ident_run(s@, i as int + 2);
        }
    }
    if i + 1 >= len {
        return None;
    }
    if s.get_char(i) != '{' || s.get_char(i + 1) != '{' {
        return None;
    }
    let mut j: usize = i + 2;
    while j < len && is_ident_char_exec(s.get_char(j))
        invariant
            i + 2 <= j <= len,
            len == s@.len(),
            ident_run(s@, i as int + 2) == (j - i - 2) + ident_run(s@, j as int),
        decreases len - j,
    {
        j += 1;
    }
    proof {
        assert(ident_run(s@, j as int) == 0);
    }
    let k = j - (i + 2);
    if k == 0 {
        return None;
    }
    if len - j > 1 && s.get_char(j) == '}' && s.get_char(j + 1) == '}' {
        Some(k)
    } else {
        None
    }
}

/// Replaces every `{{name}}` token in `template` with the rendered argument
/// bound to `name`, or with `??` when the arguments lack it.
pub fn interpolate(template: &str, args: &Args) -> (r: String)
    ensures
        r@ == interp(template@, args_view(*args)),
{
    let len = template.unicode_len();
    let mut out = String::new();
    let mut i: usize = 0;
    while i < len
        invariant
            i <= len,
            len == template@.len(),
            interp(template@, args_view(*args)) =~= out@ + interp_from(
                template@,
                args_view(*args),
                i as int,
            ),
        decreases len - i,
    {
        proof {
            if i as int + 2 <= template@.len() {
                lemma_ident_run(template@, i as int + 2);
            }
        }
        match token_probe(template, i, len) {
            Some(k) => {
                let ident = template.substring_char(i + 2, i + 2 + k);
                proof {
                    assert(ident@ =~= token_ident(template@, i as int));
                }
                match args.find(ident) {
                    Some(v) => {
                        out.append(v.as_str());
                    },
                    None => {
                        out.append("??");
                        proof {
                            reveal_strlit("??");
                            assert("??"@ =~= seq!['?', '?']);
                        }
                    },
                }
                i = i + 4 + k;
            },
            None => {
                let piece = template.substring_char(i, i + 1);
                out.append(piece);
                proof {
                    assert(piece@ =~= seq![template@[i as int]]);
                }
                i += 1;
            },
        }
    }
    proof {
        assert(interp_from(template@, args_view(*args), len as int) =~= Seq::<char>::empty());
    }
    out
}

} // verus!
