//! Verified text utilities: positional-argument interpolation.
//!
//! A chosen output string may contain placeholder tokens `$0$`, `$1$`, ... .
//! Rendering replaces, for each argument position in order, every occurrence
//! of that position's token by the argument's text. Tokens with no matching
//! argument are left literal.

use vstd::prelude::*;

verus! {

use vstd::string::StrSliceExecFns;
use vstd::string::StringExecFns;

/// Relies on std's `String::push`: appends the given character to the end of
/// the string.
pub assume_specification[ String::push ](s: &mut String, ch: char)
    ensures
        final(s)@ == old(s)@.push(ch),
;

/// The character for one decimal digit.
pub open spec fn digit_char(d: nat) -> char {
    if d == 0 {
        '0'
    } else if d == 1 {
        '1'
    } else if d == 2 {
        '2'
    } else if d == 3 {
        '3'
    } else if d == 4 {
        '4'
    } else if d == 5 {
        '5'
    } else if d == 6 {
        '6'
    } else if d == 7 {
        '7'
    } else if d == 8 {
        '8'
    } else {
        '9'
    }
}

/// The decimal digits of `n`, most significant first.
pub open spec fn dec_digits(n: nat) -> Seq<char>
    decreases n,
{
    if n < 10 {
        seq![digit_char(n)]
    } else {
        dec_digits(n / 10).push(digit_char(n % 10))
    }
}

/// The placeholder token for argument position `i`: a `$`, the decimal digits
/// of `i`, and a closing `$`.
pub open spec fn placeholder(i: nat) -> Seq<char> {
    seq!['$'] + dec_digits(i) + seq!['$']
}

/// `s` with every occurrence of `pat` replaced by `rep`, scanning left to
/// right; replaced text is not rescanned.
pub open spec fn replace_all(s: Seq<char>, pat: Seq<char>, rep: Seq<char>) -> Seq<char>
    decreases s.len(),
        when pat.len() > 0
{
    if s.len() < pat.len() {
        s
    } else if s.subrange(0, pat.len() as int) == pat {
        rep + replace_all(s.skip(pat.len() as int), pat, rep)
    } else {
        seq![s[0]] + replace_all(s.skip(1), pat, rep)
    }
}

/// `s` after substituting the placeholders of the first `k` argument
/// positions, in order of position.
pub open spec fn subst_upto(s: Seq<char>, args: Seq<Seq<char>>, k: int) -> Seq<char>
    decreases k,
{
    if k <= 0 {
        s
    } else {
        replace_all(subst_upto(s, args, k - 1), placeholder((k - 1) as nat), args[k - 1])
    }
}

/// `s` with each placeholder `$i$` replaced by the `i`-th argument, for every
/// argument position in order.
pub open spec fn rendered(s: Seq<char>, args: Seq<Seq<char>>) -> Seq<char> {
    subst_upto(s, args, args.len() as int)
}

/// Whether two string slices hold the same characters.
pub fn str_eq(a: &str, b: &str) -> (r: bool)
    ensures
        r <==> a@ == b@,
{
    let na = a.unicode_len();
    let nb = b.unicode_len();
    if na != nb {
        return false;
    }
    let mut j: usize = 0;
    while j < na
        invariant
            j <= na,
            na == a@.len(),
            na == b@.len(),
            forall|k: int| 0 <= k < j ==> a@[k] == b@[k],
        decreases na - j,
    {
        if a.get_char(j) != b.get_char(j) {
            return false;
        }
        j += 1;
    }
    proof {
        assert(a@ =~= b@);
    }
    true
}

fn digit_char_exec(d: usize) -> (c: char)
    requires
        d < 10,
    ensures
        c == digit_char(d as nat),
{
    if d == 0 {
        '0'
    } else if d == 1 {
        '1'
    } else if d == 2 {
        '2'
    } else if d == 3 {
        '3'
    } else if d == 4 {
        '4'
    } else if d == 5 {
        '5'
    } else if d == 6 {
        '6'
    } else if d == 7 {
        '7'
    } else if d == 8 {
        '8'
    } else {
        '9'
    }
}

/// Appends the decimal digits of `n` to `out`.
fn push_decimal(out: &mut String, n: usize)
    ensures
        final(out)@ == old(out)@ + dec_digits(n as nat),
    decreases n,
{
    if n < 10 {
        let c = digit_char_exec(n);
        out.push(c);
        proof {
            assert(old(out)@.push(digit_char(n as nat)) =~= old(out)@ + dec_digits(n as nat));
        }
    } else {
        push_decimal(out, n / 10);
        let c = digit_char_exec(n % 10);
        out.push(c);
        proof {
            assert((n / 10) as nat == n as nat / 10);
            assert((n % 10) as nat == n as nat % 10);
            assert((old(out)@ + dec_digits(n as nat / 10)).push(digit_char(n as nat % 10)) =~= old(
                out,
            )@ + dec_digits(n as nat));
        }
    }
}

/// Builds the placeholder token for argument position `i`.
fn make_placeholder(i: usize) -> (r: String)
    ensures
        r@ == placeholder(i as nat),
        r@.len() > 0,
{
    let mut r = String::new();
    r.push('$');
    push_decimal(&mut r, i);
    r.push('$');
    proof {
        assert(r@ =~= placeholder(i as nat));
    }
    r
}

/// Whether `pat` occurs in `s` starting at character position `i`.
fn matches_at(s: &str, n: usize, i: usize, pat: &str, m: usize) -> (b: bool)
    requires
        n == s@.len(),
        m == pat@.len(),
        i + m <= n,
    ensures
        b <==> s@.subrange(i as int, i + m) == pat@,
{
    let mut j: usize = 0;
    while j < m
        invariant
            j <= m,
            i + m <= n,
            n == s@.len(),
            m == pat@.len(),
            forall|k: int| 0 <= k < j ==> s@[i + k] == pat@[k],
        decreases m - j,
    {
        if s.get_char(i + j) != pat.get_char(j) {
            proof {
                assert(s@.subrange(i as int, i + m)[j as int] == s@[i + j]);
            }
            return false;
        }
        j += 1;
    }
    proof {
        assert(s@.subrange(i as int, i + m) =~= pat@);
    }
    true
}

/// `s` with every occurrence of `pat` replaced by `rep`, scanning left to
/// right; replaced text is not rescanned.
pub fn replace_all_str(s: &str, pat: &str, rep: &str) -> (r: String)
    requires
        pat@.len() > 0,
    ensures
        r@ == replace_all(s@, pat@, rep@),
{
    let n = s.unicode_len();
    let m = pat.unicode_len();
    if m > n {
        return String::from_str(s);
    }
    let mut out = String::new();
    let mut i: usize = 0;
    proof {
        assert(s@.skip(0) =~= s@);
        assert(out@ + replace_all(s@, pat@, rep@) =~= replace_all(s@, pat@, rep@));
    }
    while i <= n - m
        invariant
            m <= n,
            i <= n,
            n == s@.len(),
            m == pat@.len(),
            m > 0,
            replace_all(s@, pat@, rep@) == out@ + replace_all(s@.skip(i as int), pat@, rep@),
        decreases n - i,
    {
        let ghost out0 = out@;
        let ghost tail = s@.skip(i as int);
        let is_match = matches_at(s, n, i, pat, m);
        if is_match {
            out.append(rep);
            proof {
                assert(tail.subrange(0, m as int) =~= s@.subrange(i as int, i + m));
                assert(tail.skip(m as int) =~= s@.skip(i + m));
                assert(replace_all(tail, pat@, rep@) == rep@ + replace_all(
                    s@.skip(i + m),
                    pat@,
                    rep@,
                ));
                assert((out0 + rep@) + replace_all(s@.skip(i + m), pat@, rep@) =~= out0 + (rep@
                    + replace_all(s@.skip(i + m), pat@, rep@)));
            }
            i += m;
        } else {
            let c = s.get_char(i);
            out.push(c);
            proof {
                assert(tail.subrange(0, m as int) =~= s@.subrange(i as int, i + m));
                assert(tail[0] == s@[i as int]);
                assert(tail.skip(1) =~= s@.skip(i + 1));
                assert(replace_all(tail, pat@, rep@) == seq![s@[i as int]] + replace_all(
                    s@.skip(i + 1),
                    pat@,
                    rep@,
                ));
                assert(out0.push(c) + replace_all(s@.skip(i + 1), pat@, rep@) =~= out0 + (
                seq![s@[i as int]] + replace_all(s@.skip(i + 1), pat@, rep@)));
            }
            i += 1;
        }
    }
    let rest = s.substring_char(i, n);
    out.append(rest);
    proof {
        assert(s@.skip(i as int).len() < m);
        assert(replace_all(s@.skip(i as int), pat@, rep@) == s@.skip(i as int));
        assert(s@.subrange(i as int, n as int) =~= s@.skip(i as int));
    }
    out
}

/// `s` with each placeholder `$i$` replaced by the `i`-th element of `args`,
/// for every index of `args` in order; placeholders past the end of `args`
/// stay literal.
pub fn render_args(s: &str, args: &Vec<String>) -> (r: String)
    ensures
        r@ == rendered(s@, args.deep_view()),
{
    let ghost argv = args.deep_view();
    let mut result = String::from_str(s);
    let mut i: usize = 0;
    while i < args.len()
        invariant
            i <= args.len(),
            argv == args.deep_view(),
            argv.len() == args@.len(),
            result@ == subst_upto(s@, argv, i as int),
        decreases args.len() - i,
    {
        let pat = make_placeholder(i);
        let next = replace_all_str(result.as_str(), pat.as_str(), args[i].as_str());
        proof {
            assert(argv[i as int] == args@[i as int]@);
        }
        result = next;
        i += 1;
    }
    result
}

} // verus!
