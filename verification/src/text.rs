//! Character-sequence utilities: whitespace, prefix tests, trimming, and
//! exact-text replacement, each specified over `Seq<char>` views.

use vstd::prelude::*;

verus! {

/// The characters this library treats as whitespace when trimming lines and
/// splitting argument tokens: the ASCII whitespace characters.
pub open spec fn is_space(c: char) -> bool {
    c == ' ' || c == '\t' || c == '\n' || c == '\r' || c == '\u{b}' || c == '\u{c}'
}

/// Executable whitespace test.
pub fn is_space_char(c: char) -> (r: bool)
    ensures
        r == is_space(c),
{
    c == ' ' || c == '\t' || c == '\n' || c == '\r' || c == '\u{b}' || c == '\u{c}'
}

/// `p` is an initial segment of `s`.
pub open spec fn is_prefix(p: Seq<char>, s: Seq<char>) -> bool {
    p.len() <= s.len() && s.take(p.len() as int) == p
}

/// Character-wise string equality.
pub fn str_eq(a: &str, b: &str) -> (r: bool)
    ensures
        r == (a@ == b@),
{
    let n = a.unicode_len();
    if n != b.unicode_len() {
        proof {
            assert(a@ != b@) by {
                assert(a@.len() != b@.len());
            }
        }
        return false;
    }
    let mut i: usize = 0;
    while i < n
        invariant
            n == a@.len(),
            n == b@.len(),
            i <= n,
            forall|j: int| 0 <= j < i ==> a@[j] == b@[j],
        decreases n - i,
    {
        if a.get_char(i) != b.get_char(i) {
            return false;
        }
        i = i + 1;
    }
    proof {
        assert(a@ =~= b@);
    }
    true
}

/// `s` begins with the literal prefix `p`.
pub fn starts_with(s: &str, p: &str) -> (r: bool)
    ensures
        r == is_prefix(p@, s@),
{
    let np = p.unicode_len();
    if np > s.unicode_len() {
        return false;
    }
    let mut i: usize = 0;
    while i < np
        invariant
            np == p@.len(),
            np <= s@.len(),
            i <= np,
            forall|j: int| 0 <= j < i ==> s@[j] == p@[j],
        decreases np - i,
    {
        if s.get_char(i) != p.get_char(i) {
            proof {
                assert(s@.take(np as int)[i as int] != p@[i as int]);
            }
            return false;
        }
        i = i + 1;
    }
    proof {
        assert(s@.take(np as int) =~= p@);
    }
    true
}

/// `s` with leading whitespace removed.
pub open spec fn trim_start_spec(s: Seq<char>) -> Seq<char>
    decreases s.len(),
{
    if s.len() > 0 && is_space(s[0]) {
        trim_start_spec(s.skip(1))
    } else {
        s
    }
}

/// `s` with trailing whitespace removed.
pub open spec fn trim_end_spec(s: Seq<char>) -> Seq<char>
    decreases s.len(),
{
    if s.len() > 0 && is_space(s[s.len() - 1]) {
        trim_end_spec(s.take(s.len() - 1))
    } else {
        s
    }
}

/// `s` with leading and trailing whitespace removed.
pub open spec fn trim_spec(s: Seq<char>) -> Seq<char> {
    trim_end_spec(trim_start_spec(s))
}

fn trim_start_str(s: &str) -> (r: &str)
    ensures
        r@ == trim_start_spec(s@),
    decreases s@.len(),
{
    let n = s.unicode_len();
    if n > 0 && is_space_char(s.get_char(0)) {
        let rest = s.substring_char(1, n);
        proof {
            assert(rest@ =~= s@.skip(1));
        }
        trim_start_str(rest)
    } else {
        s
    }
}

fn trim_end_str(s: &str) -> (r: &str)
    ensures
        r@ == trim_end_spec(s@),
    decreases s@.len(),
{
    let n = s.unicode_len();
    if n > 0 && is_space_char(s.get_char(n - 1)) {
        let rest = s.substring_char(0, n - 1);
        proof {
            assert(rest@ =~= s@.take(s@.len() - 1));
        }
        trim_end_str(rest)
    } else {
        s
    }
}

/// `s` with leading and trailing whitespace removed.
pub fn trim_str(s: &str) -> (r: &str)
    ensures
        r@ == trim_spec(s@),
{
    trim_end_str(trim_start_str(s))
}

/// The result of replacing, left to right, each non-overlapping occurrence of
/// the non-empty pattern `pat` in `s` by `to`; replacement text is not
/// rescanned. An empty pattern leaves `s` unchanged.
pub open spec fn replace_spec(s: Seq<char>, pat: Seq<char>, to: Seq<char>) -> Seq<char>
    decreases s.len(),
{
    if pat.len() == 0 {
        s
    } else if s.len() < pat.len() {
        s
    } else if is_prefix(pat, s) {
        to + replace_spec(s.skip(pat.len() as int), pat, to)
    } else {
        seq![s[0]] + replace_spec(s.skip(1), pat, to)
    }
}

/// Replace every non-overlapping occurrence of `pat` in `s` by `to`,
/// scanning left to right; the replacement text is never rescanned.
pub fn replace_str(s: &str, pat: &str, to: &str) -> (r: String)
    requires
        pat@.len() >= 1,
    ensures
        r@ == replace_spec(s@, pat@, to@),
    decreases s@.len(),
{
    let n = s.unicode_len();
    if n < pat.unicode_len() {
        s.to_owned()
    } else if starts_with(s, pat) {
        let rest = s.substring_char(pat.unicode_len(), n);
        proof {
            assert(rest@ =~= s@.skip(pat@.len() as int));
        }
        let tail = replace_str(rest, pat, to);
        let mut r = to.to_owned();
        r.append(tail.as_str());
        r
    } else {
        let rest = s.substring_char(1, n);
        proof {
            assert(rest@ =~= s@.skip(1));
        }
        let tail = replace_str(rest, pat, to);
        let mut r = s.substring_char(0, 1).to_owned();
        r.append(tail.as_str());
        proof {
            assert(s@.subrange(0, 1) =~= seq![s@[0]]);
        }
        r
    }
}

/// The whitespace-separated tokens of `s`, given the tokens' characters read
/// so far in `cur`: maximal runs of non-whitespace characters, in order.
pub open spec fn split_ws_acc(s: Seq<char>, cur: Seq<char>) -> Seq<Seq<char>>
    decreases s.len(),
{
    if s.len() == 0 {
        if cur.len() == 0 {
            Seq::empty()
        } else {
            seq![cur]
        }
    } else if is_space(s[0]) {
        if cur.len() == 0 {
            split_ws_acc(s.skip(1), Seq::empty())
        } else {
            seq![cur] + split_ws_acc(s.skip(1), Seq::empty())
        }
    } else {
        split_ws_acc(s.skip(1), cur.push(s[0]))
    }
}

/// The whitespace-separated tokens of `s`.
pub open spec fn split_ws(s: Seq<char>) -> Seq<Seq<char>> {
    split_ws_acc(s, Seq::empty())
}

/// Split `s` into its whitespace-separated tokens.
pub fn split_whitespace_str(s: &str) -> (r: Vec<String>)
    ensures
        r.deep_view() == split_ws(s@),
{
    let n = s.unicode_len();
    let mut out: Vec<String> = Vec::new();
    let mut start: usize = 0;
    let mut i: usize = 0;
    proof {
        assert(s@.skip(0) =~= s@);
        assert(s@.subrange(0, 0) =~= Seq::<char>::empty());
        assert(out.deep_view() =~= Seq::<Seq<char>>::empty());
        assert(out.deep_view() + split_ws_acc(s@, Seq::empty()) =~= split_ws(s@));
    }
    while i < n
        invariant
            n == s@.len(),
            start <= i <= n,
            out.deep_view() + split_ws_acc(s@.skip(i as int), s@.subrange(start as int, i as int))
                =~= split_ws(s@),
        decreases n - i,
    {
        let c = s.get_char(i);
        proof {
            assert(s@.skip(i as int)[0] == s@[i as int]);
            assert(s@.skip(i as int).skip(1) =~= s@.skip(i + 1));
        }
        if is_space_char(c) {
            if start < i {
                let tok = s.substring_char(start, i).to_owned();
                let ghost prev = out;
                out.push(tok);
                proof {
                    let ghost cur = s@.subrange(start as int, i as int);
                    assert(cur.len() > 0);
                    assert(out.deep_view() =~= prev.deep_view() + seq![cur]);
                    assert((prev.deep_view() + seq![cur])
                        + split_ws_acc(s@.skip(i + 1), Seq::empty())
                        =~= prev.deep_view() + (seq![cur] + split_ws_acc(s@.skip(i + 1), Seq::empty())));
                }
            } else {
                proof {
                    assert(s@.subrange(start as int, i as int).len() == 0);
                }
            }
            start = i + 1;
            proof {
                assert(s@.subrange(start as int, start as int) =~= Seq::<char>::empty());
            }
        } else {
            proof {
                assert(s@.subrange(start as int, i + 1)
                    =~= s@.subrange(start as int, i as int).push(s@[i as int]));
            }
        }
        i = i + 1;
    }
    proof {
        assert(s@.skip(n as int) =~= Seq::<char>::empty());
    }
    if start < n {
        let tok = s.substring_char(start, n).to_owned();
        let ghost prev = out;
        out.push(tok);
        proof {
            let ghost cur = s@.subrange(start as int, n as int);
            assert(cur.len() > 0);
            assert(out.deep_view() =~= prev.deep_view() + seq![cur]);
        }
    } else {
        proof {
            assert(s@.subrange(start as int, n as int).len() == 0);
            assert(out.deep_view() + Seq::<Seq<char>>::empty() =~= out.deep_view());
        }
    }
    out
}

/// The lines of `s`, split at `'\n'`, given the characters of the current
/// line read so far in `cur`. The text after the last `'\n'` is a line of its
/// own, so an empty text has one empty line.
pub open spec fn lines_acc(s: Seq<char>, cur: Seq<char>) -> Seq<Seq<char>>
    decreases s.len(),
{
    if s.len() == 0 {
        seq![cur]
    } else if s[0] == '\n' {
        seq![cur] + lines_acc(s.skip(1), Seq::empty())
    } else {
        lines_acc(s.skip(1), cur.push(s[0]))
    }
}

/// The lines of `s`, split at `'\n'`.
pub open spec fn source_lines(s: Seq<char>) -> Seq<Seq<char>> {
    lines_acc(s, Seq::empty())
}

/// Split `s` into lines at each `'\n'`; the line terminators are not part of
/// the lines, and the text after the last `'\n'` is a line of its own.
pub fn split_lines_str(s: &str) -> (r: Vec<String>)
    ensures
        r.deep_view() == source_lines(s@),
{
    let n = s.unicode_len();
    let mut out: Vec<String> = Vec::new();
    let mut start: usize = 0;
    let mut i: usize = 0;
    proof {
        assert(s@.skip(0) =~= s@);
        assert(s@.subrange(0, 0) =~= Seq::<char>::empty());
        assert(out.deep_view() =~= Seq::<Seq<char>>::empty());
        assert(out.deep_view() + lines_acc(s@, Seq::empty()) =~= source_lines(s@));
    }
    while i < n
        invariant
            n == s@.len(),
            start <= i <= n,
            out.deep_view() + lines_acc(s@.skip(i as int), s@.subrange(start as int, i as int))
                =~= source_lines(s@),
        decreases n - i,
    {
        let c = s.get_char(i);
        proof {
            assert(s@.skip(i as int)[0] == s@[i as int]);
            assert(s@.skip(i as int).skip(1) =~= s@.skip(i + 1));
        }
        if c == '\n' {
            let line = s.substring_char(start, i).to_owned();
            let ghost prev = out;
            out.push(line);
            proof {
                let ghost cur = s@.subrange(start as int, i as int);
                assert(out.deep_view() =~= prev.deep_view() + seq![cur]);
                assert((prev.deep_view() + seq![cur])
                    + lines_acc(s@.skip(i + 1), Seq::empty())
                    =~= prev.deep_view() + (seq![cur] + lines_acc(s@.skip(i + 1), Seq::empty())));
            }
            start = i + 1;
            proof {
                assert(s@.subrange(start as int, start as int) =~= Seq::<char>::empty());
            }
        } else {
            proof {
                assert(s@.subrange(start as int, i + 1)
                    =~= s@.subrange(start as int, i as int).push(s@[i as int]));
            }
        }
        i = i + 1;
    }
    let last = s.substring_char(start, n).to_owned();
    proof {
        assert(s@.skip(n as int) =~= Seq::<char>::empty());
    }
    let ghost prev = out;
    out.push(last);
    proof {
        let ghost cur = s@.subrange(start as int, n as int);
        assert(out.deep_view() =~= prev.deep_view() + seq![cur]);
    }
    out
}

/// The decimal digit character for `d`, for `d < 10`.
pub open spec fn digit_char(d: nat) -> char {
    if d == 0 { '0' }
    else if d == 1 { '1' }
    else if d == 2 { '2' }
    else if d == 3 { '3' }
    else if d == 4 { '4' }
    else if d == 5 { '5' }
    else if d == 6 { '6' }
    else if d == 7 { '7' }
    else if d == 8 { '8' }
    else { '9' }
}

/// The decimal digits of `n`, most significant first, with no leading zero
/// except for `n == 0` itself.
pub open spec fn dec_spec(n: nat) -> Seq<char>
    decreases n,
{
    if n < 10 {
        seq![digit_char(n)]
    } else {
        dec_spec(n / 10).push(digit_char(n % 10))
    }
}

fn digit_str(d: usize) -> (r: &'static str)
    requires
        d < 10,
    ensures
        r@ =~= seq![digit_char(d as nat)],
{
    proof {
        reveal_strlit("0");
        reveal_strlit("1");
        reveal_strlit("2");
        reveal_strlit("3");
        reveal_strlit("4");
        reveal_strlit("5");
        reveal_strlit("6");
        reveal_strlit("7");
        reveal_strlit("8");
        reveal_strlit("9");
    }
    if d == 0 { "0" }
    else if d == 1 { "1" }
    else if d == 2 { "2" }
    else if d == 3 { "3" }
    else if d == 4 { "4" }
    else if d == 5 { "5" }
    else if d == 6 { "6" }
    else if d == 7 { "7" }
    else if d == 8 { "8" }
    else { "9" }
}

/// Render `n` in decimal.
pub fn usize_to_dec(n: usize) -> (r: String)
    ensures
        r@ == dec_spec(n as nat),
    decreases n,
{
    if n < 10 {
        digit_str(n).to_owned()
    } else {
        let mut r = usize_to_dec(n / 10);
        r.append(digit_str(n % 10));
        proof {
            assert(dec_spec(n as nat / 10) + seq![digit_char(n as nat % 10)]
                =~= dec_spec(n as nat / 10).push(digit_char(n as nat % 10)));
        }
        r
    }
}

/// The positional placeholder text for argument `i`: `{`, the decimal digits
/// of `i`, `}`.
pub open spec fn placeholder(i: nat) -> Seq<char> {
    seq!['{'] + dec_spec(i) + seq!['}']
}

/// Build the positional placeholder text for argument `i`.
pub fn placeholder_str(i: usize) -> (r: String)
    ensures
        r@ == placeholder(i as nat),
        r@.len() >= 1,
{
    proof {
        reveal_strlit("{");
        reveal_strlit("}");
        assert(("{")@ =~= seq!['{']);
        assert(("}")@ =~= seq!['}']);
    }
    let mut r = String::from_str("{");
    r.append(usize_to_dec(i).as_str());
    r.append("}");
    r
}

/// `depth` levels of indentation: four spaces for each level.
pub open spec fn indent_spec(depth: nat) -> Seq<char> {
    Seq::new(4 * depth, |i: int| ' ')
}

/// Append one level of indentation (four spaces) to `s`.
pub fn push_indent_level(s: &mut String, Ghost(depth): Ghost<nat>)
    requires
        old(s)@ == indent_spec(depth),
    ensures
        final(s)@ == indent_spec(depth + 1),
{
    proof {
        reveal_strlit("    ");
        assert(("    ")@ =~= Seq::new(4, |i: int| ' '));
        assert(indent_spec(depth) + Seq::new(4, |i: int| ' ') =~= indent_spec(depth + 1));
    }
    s.append("    ");
}

/// Build `depth` levels of indentation, four spaces each.
pub fn indent_string(depth: usize) -> (r: String)
    ensures
        r@ == indent_spec(depth as nat),
{
    let mut r = String::new();
    let mut k: usize = 0;
    proof {
        assert(r@ =~= indent_spec(0));
    }
    while k < depth
        invariant
            k <= depth,
            r@ == indent_spec(k as nat),
        decreases depth - k,
    {
        push_indent_level(&mut r, Ghost(k as nat));
        k = k + 1;
    }
    r
}

} // verus!
