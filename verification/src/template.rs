//! Expansion of a command's argument list against a caller-supplied list of
//! option strings.
//!
//! Each argument is scanned left to right for three tokens: `{{` and `}}`,
//! which stand for literal braces and are consumed, and `{name}`, where
//! `name` is a nonempty run of characters other than `}`. An argument that
//! holds a `{options}` placeholder is replaced, as a whole argument position,
//! by the entire option list; every other argument passes through as a single
//! argument with its brace escapes resolved (an unrecognized `{name}` keeps
//! its braces). When no argument holds an `{options}` placeholder, the option
//! list is appended at the end. The option list itself is never mutated.

use vstd::prelude::*;

verus! {

/// Holds of the least index `j >= 1` at which `s` carries a closing brace.
pub open spec fn is_first_close(s: Seq<char>, j: int) -> bool {
    &&& 1 <= j < s.len()
    &&& s[j] == '}'
    &&& forall|k: int| 1 <= k < j ==> s[k] != '}'
}

/// True when `s` carries a closing brace somewhere after its first character.
pub open spec fn has_close(s: Seq<char>) -> bool {
    exists|j: int| is_first_close(s, j)
}

/// The least index `j >= 1` at which `s` carries a closing brace.
pub open spec fn close_of(s: Seq<char>) -> int {
    choose|j: int| is_first_close(s, j)
}

/// One step of scanning an argument: `acc` is the text emitted so far and
/// `found` records whether an `{options}` placeholder was seen. Returns the
/// resolved text of the whole argument and the final placeholder flag.
pub open spec fn scan_step(s: Seq<char>, acc: Seq<char>, found: bool) -> (Seq<char>, bool)
    decreases s.len(),
{
    if s.len() == 0 {
        (acc, found)
    } else if s.len() >= 2 && s[0] == '{' && s[1] == '{' {
        scan_step(s.skip(2), acc.push('{'), found)
    } else if s.len() >= 2 && s[0] == '}' && s[1] == '}' {
        scan_step(s.skip(2), acc.push('}'), found)
    } else if s[0] == '{' && has_close(s) && close_of(s) >= 2 {
        scan_step(
            s.skip(close_of(s) + 1),
            acc + s.take(close_of(s) + 1),
            found || s.subrange(1, close_of(s)) == "options"@,
        )
    } else {
        scan_step(s.skip(1), acc.push(s[0]), found)
    }
}

/// The scan of a whole argument: its text with escapes resolved, and whether
/// it carries an `{options}` placeholder.
pub open spec fn scan_arg(s: Seq<char>) -> (Seq<char>, bool) {
    scan_step(s, Seq::empty(), false)
}

/// One step of expanding an argument list: `acc` is the output built so far
/// and `found` records whether any argument so far carried an `{options}`
/// placeholder. An argument with the placeholder contributes the whole option
/// list; any other argument contributes its resolved text; when no argument
/// carried the placeholder, the option list is appended at the end.
pub open spec fn expand_step(
    args: Seq<Seq<char>>,
    opts: Seq<Seq<char>>,
    acc: Seq<Seq<char>>,
    found: bool,
) -> Seq<Seq<char>>
    decreases args.len(),
{
    if args.len() == 0 {
        if found {
            acc
        } else {
            acc + opts
        }
    } else if scan_arg(args[0]).1 {
        expand_step(args.skip(1), opts, acc + opts, true)
    } else {
        expand_step(args.skip(1), opts, acc.push(scan_arg(args[0]).0), found)
    }
}

/// The expansion of an argument list against an option list.
pub open spec fn spec_expand(args: Seq<Seq<char>>, opts: Seq<Seq<char>>) -> Seq<Seq<char>> {
    expand_step(args, opts, Seq::empty(), false)
}

/// True when some argument of the list carries an `{options}` placeholder.
pub open spec fn any_placeholder(args: Seq<Seq<char>>) -> bool {
    exists|i: int| 0 <= i < args.len() && scan_arg(args[i]).1
}

/// What one argument contributes to the expanded list: the whole option
/// list when it carries an `{options}` placeholder, else its resolved text
/// as a single argument.
pub open spec fn arg_contribution(a: Seq<char>, opts: Seq<Seq<char>>) -> Seq<Seq<char>> {
    if scan_arg(a).1 {
        opts
    } else {
        seq![scan_arg(a).0]
    }
}

/// The concatenation of every argument's contribution, in order.
pub open spec fn contributions(args: Seq<Seq<char>>, opts: Seq<Seq<char>>) -> Seq<Seq<char>>
    decreases args.len(),
{
    if args.len() == 0 {
        Seq::empty()
    } else {
        arg_contribution(args[0], opts) + contributions(args.skip(1), opts)
    }
}

/// A placeholder in the list is a placeholder in its head or in its tail.
proof fn lemma_any_placeholder_unfold(args: Seq<Seq<char>>)
    requires
        args.len() > 0,
    ensures
        any_placeholder(args) == (scan_arg(args[0]).1 || any_placeholder(args.skip(1))),
{
    let rest = args.skip(1);
    if scan_arg(args[0]).1 {
        assert(any_placeholder(args));
    }
    if any_placeholder(rest) {
        let i = choose|i: int| 0 <= i < rest.len() && scan_arg(rest[i]).1;
        assert(scan_arg(args[i + 1]).1);
        assert(any_placeholder(args));
    }
    if any_placeholder(args) && !scan_arg(args[0]).1 {
        let i = choose|i: int| 0 <= i < args.len() && scan_arg(args[i]).1;
        assert(i != 0);
        assert(rest[i - 1] == args[i]);
        assert(any_placeholder(rest));
    }
}

/// The accumulator form of the expansion, written out: the accumulator,
/// then every argument's contribution, then the option list when no
/// placeholder was or will be found.
proof fn lemma_expand_step_characterization(
    args: Seq<Seq<char>>,
    opts: Seq<Seq<char>>,
    acc: Seq<Seq<char>>,
    found: bool,
)
    ensures
        expand_step(args, opts, acc, found) == if found || any_placeholder(args) {
            acc + contributions(args, opts)
        } else {
            acc + contributions(args, opts) + opts
        },
    decreases args.len(),
{
    if args.len() == 0 {
        assert(!any_placeholder(args));
        assert(acc + contributions(args, opts) =~= acc);
    } else {
        let a0 = args[0];
        let rest = args.skip(1);
        lemma_any_placeholder_unfold(args);
        if scan_arg(a0).1 {
            lemma_expand_step_characterization(rest, opts, acc + opts, true);
            assert((acc + opts) + contributions(rest, opts) =~= acc + contributions(args, opts));
        } else {
            lemma_expand_step_characterization(rest, opts, acc.push(scan_arg(a0).0), found);
            assert(acc.push(scan_arg(a0).0) + contributions(rest, opts) =~= acc + contributions(
                args,
                opts,
            ));
        }
    }
}

/// The expanded list, argument by argument: every argument contributes the
/// option list or its resolved text, in order, and when no argument carries
/// an `{options}` placeholder the option list is appended at the end.
pub proof fn lemma_expand_characterization(args: Seq<Seq<char>>, opts: Seq<Seq<char>>)
    ensures
        any_placeholder(args) ==> spec_expand(args, opts) == contributions(args, opts),
        !any_placeholder(args) ==> spec_expand(args, opts) == contributions(args, opts) + opts,
{
    lemma_expand_step_characterization(args, opts, Seq::empty(), false);
    assert(Seq::<Seq<char>>::empty() + contributions(args, opts) =~= contributions(args, opts));
}

/// The views of a sequence of strings, element by element.
pub open spec fn views_of(ss: Seq<String>) -> Seq<Seq<char>> {
    Seq::new(ss.len(), |i: int| ss[i]@)
}

/// `views_of` commutes with pushing one string.
proof fn lemma_views_of_push(ss: Seq<String>, s: String)
    ensures
        views_of(ss.push(s)) == views_of(ss).push(s@),
{
    assert(views_of(ss.push(s)) =~= views_of(ss).push(s@));
}

/// `views_of` commutes with concatenation.
proof fn lemma_views_of_concat(a: Seq<String>, b: Seq<String>)
    ensures
        views_of(a + b) == views_of(a) + views_of(b),
{
    assert(views_of(a + b) =~= views_of(a) + views_of(b));
}

/// A first closing brace is unique, so it is the one `close_of` picks.
proof fn lemma_first_close_is(s: Seq<char>, j: int)
    requires
        is_first_close(s, j),
    ensures
        has_close(s),
        close_of(s) == j,
{
    assert(has_close(s));
    let j2 = close_of(s);
    assert(is_first_close(s, j2));
    if j2 < j {
        assert(s[j2] == '}');
        assert(false);
    } else if j2 > j {
        assert(s[j] == '}');
        assert(false);
    }
}

/// A sequence without a closing brace past its first character has no first
/// closing brace at all.
proof fn lemma_no_close(s: Seq<char>)
    requires
        forall|k: int| 1 <= k < s.len() ==> s[k] != '}',
    ensures
        !has_close(s),
{
    if has_close(s) {
        let j = close_of(s);
        assert(is_first_close(s, j));
        assert(false);
    }
}

/// Character-wise string equality, settled at the level of views.
pub fn str_eq(a: &str, b: &str) -> (r: bool)
    ensures
        r == (a@ == b@),
{
    let na = a.unicode_len();
    let nb = b.unicode_len();
    if na != nb {
        return false;
    }
    let mut i: usize = 0;
    while i < na
        invariant
            na == a@.len(),
            nb == b@.len(),
            na == nb,
            i <= na,
            forall|k: int| 0 <= k < i ==> a@[k] == b@[k],
        decreases na - i,
    {
        if a.get_char(i) != b.get_char(i) {
            return false;
        }
        i = i + 1;
    }
    proof {
        assert(a@ =~= b@);
    }
    true
}

/// Scans one argument: returns its resolved text and whether it carries an
/// `{options}` placeholder.
fn scan_one(arg: &str) -> (r: (String, bool))
    ensures
        r.0@ == scan_arg(arg@).0,
        r.1 == scan_arg(arg@).1,
{
    let n: usize = arg.unicode_len();
    let mut out: String = String::new();
    let mut found: bool = false;
    let mut i: usize = 0;
    proof {
        assert(arg@.skip(0) =~= arg@);
    }
    while i < n
        invariant
            n == arg@.len(),
            i <= n,
            scan_step(arg@.skip(i as int), out@, found) == scan_arg(arg@),
        decreases n - i,
    {
        let ghost i0 = i as int;
        let ghost out0 = out@;
        let ghost f0 = found;
        let ghost s0 = arg@.skip(i0);
        let c = arg.get_char(i);
        if c == '{' && i + 1 < n && arg.get_char(i + 1) == '{' {
            out.append(arg.substring_char(i, i + 1));
            proof {
                assert(s0.skip(2) =~= arg@.skip(i0 + 2));
                assert(out@ =~= out0.push('{'));
                assert(scan_step(s0, out0, f0) == scan_step(arg@.skip(i0 + 2), out@, found));
            }
            i = i + 2;
        } else if c == '}' && i + 1 < n && arg.get_char(i + 1) == '}' {
            out.append(arg.substring_char(i, i + 1));
            proof {
                assert(s0.skip(2) =~= arg@.skip(i0 + 2));
                assert(out@ =~= out0.push('}'));
                assert(scan_step(s0, out0, f0) == scan_step(arg@.skip(i0 + 2), out@, found));
            }
            i = i + 2;
        } else if c == '{' {
            let mut j: usize = i + 1;
            while j < n && arg.get_char(j) != '}'
                invariant
                    n == arg@.len(),
                    i < j <= n,
                    forall|k: int| i < k < j ==> arg@[k] != '}',
                decreases n - j,
            {
                j = j + 1;
            }
            if j < n && j > i + 1 {
                // a placeholder `{name}` with a nonempty name
                let is_opts = str_eq(arg.substring_char(i + 1, j), "options");
                found = found || is_opts;
                out.append(arg.substring_char(i, j + 1));
                proof {
                    let jr = j - i0;
                    assert forall|k: int| 1 <= k < jr implies s0[k] != '}' by {
                        assert(s0[k] == arg@[i0 + k]);
                    }
                    lemma_first_close_is(s0, jr);
                    assert(s0.subrange(1, jr) =~= arg@.subrange(i0 + 1, j as int));
                    assert(s0.take(jr + 1) =~= arg@.subrange(i0, j + 1));
                    assert(s0.skip(jr + 1) =~= arg@.skip(j + 1));
                    assert(out@ =~= out0 + s0.take(jr + 1));
                    assert(scan_step(s0, out0, f0) == scan_step(arg@.skip(j + 1), out@, found));
                }
                i = j + 1;
            } else {
                // `{}` or an unterminated `{`: the brace is literal
                out.append(arg.substring_char(i, i + 1));
                proof {
                    if j < n {
                        assert(is_first_close(s0, j - i0));
                        lemma_first_close_is(s0, j - i0);
                    } else {
                        assert forall|k: int| 1 <= k < s0.len() implies s0[k] != '}' by {
                            assert(s0[k] == arg@[i0 + k]);
                        }
                        lemma_no_close(s0);
                    }
                    assert(s0.skip(1) =~= arg@.skip(i0 + 1));
                    assert(out@ =~= out0.push(s0[0]));
                    assert(scan_step(s0, out0, f0) == scan_step(arg@.skip(i0 + 1), out@, found));
                }
                i = i + 1;
            }
        } else {
            out.append(arg.substring_char(i, i + 1));
            proof {
                assert(s0.skip(1) =~= arg@.skip(i0 + 1));
                assert(out@ =~= out0.push(s0[0]));
                assert(scan_step(s0, out0, f0) == scan_step(arg@.skip(i0 + 1), out@, found));
            }
            i = i + 1;
        }
    }
    proof {
        assert(arg@.skip(n as int) =~= Seq::<char>::empty());
    }
    (out, found)
}

/// Pushes a copy of every string of `src` onto `dst`, in order.
pub(crate) fn push_all(dst: &mut Vec<String>, src: &Vec<String>)
    ensures
        final(dst)@ == old(dst)@ + src@,
{
    let ghost orig = dst@;
    let mut k: usize = 0;
    proof {
        assert(orig + src@.take(0) =~= orig);
    }
    while k < src.len()
        invariant
            k <= src@.len(),
            dst@ == orig + src@.take(k as int),
        decreases src@.len() - k,
    {
        dst.push(src[k].clone());
        proof {
            assert(dst@ =~= orig + src@.take(k + 1));
        }
        k = k + 1;
    }
    proof {
        assert(src@.take(src@.len() as int) =~= src@);
    }
}

/// Expands `args` against `options`: an argument holding an `{options}`
/// placeholder becomes the whole option list, every other argument passes
/// through with its brace escapes resolved, and when no argument holds the
/// placeholder the option list is appended at the end. `options` is read
/// only and comes back to the caller untouched.
pub fn expand(args: &Vec<String>, options: &Vec<String>) -> (r: Vec<String>)
    ensures
        views_of(r@) == spec_expand(views_of(args@), views_of(options@)),
{
    let ghost adv = views_of(args@);
    let ghost odv = views_of(options@);
    let mut out: Vec<String> = Vec::new();
    let mut found: bool = false;
    let mut idx: usize = 0;
    proof {
        assert(adv.skip(0) =~= adv);
        assert(views_of(out@) =~= Seq::<Seq<char>>::empty());
    }
    while idx < args.len()
        invariant
            adv == views_of(args@),
            odv == views_of(options@),
            idx <= adv.len(),
            args@.len() == adv.len(),
            expand_step(adv.skip(idx as int), odv, views_of(out@), found) == spec_expand(adv, odv),
        decreases adv.len() - idx,
    {
        let ghost i0 = idx as int;
        let ghost out0 = out@;
        let ghost f0 = found;
        proof {
            assert(adv.skip(i0)[0] == adv[i0]);
            assert(adv[i0] == args@[i0]@);
        }
        let (text, has_opts) = scan_one(args[idx].as_str());
        if has_opts {
            push_all(&mut out, options);
            found = true;
            proof {
                lemma_views_of_concat(out0, options@);
            }
        } else {
            out.push(text);
            proof {
                lemma_views_of_push(out0, text);
            }
        }
        proof {
            assert(adv.skip(i0).skip(1) =~= adv.skip(i0 + 1));
            assert(expand_step(adv.skip(i0), odv, views_of(out0), f0) == expand_step(
                adv.skip(i0 + 1),
                odv,
                views_of(out@),
                found,
            ));
        }
        idx = idx + 1;
    }
    proof {
        assert(adv.skip(adv.len() as int) =~= Seq::<Seq<char>>::empty());
    }
    if !found {
        let ghost out1 = out@;
        push_all(&mut out, options);
        proof {
            lemma_views_of_concat(out1, options@);
        }
    }
    out
}

/// Expansion is deterministic: two results of expanding the same arguments
/// against the same options are identical. In particular, running the
/// expansion twice in a row yields the same output both times, since the
/// option list is taken by shared reference and never mutated.
pub proof fn lemma_expand_deterministic(
    args: Seq<Seq<char>>,
    opts: Seq<Seq<char>>,
    r1: Seq<Seq<char>>,
    r2: Seq<Seq<char>>,
)
    requires
        r1 == spec_expand(args, opts),
        r2 == spec_expand(args, opts),
    ensures
        r1 == r2,
{
}

} // verus!
