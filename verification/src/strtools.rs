//! Small verified string utilities: equality, joining, splitting and
//! substitution over `Seq<char>` views.

use vstd::prelude::*;
use vstd::string::StrSliceExecFns;
use vstd::string::StringExecFns;

verus! {

/// The views of a sequence of strings.
pub open spec fn views_of(parts: Seq<String>) -> Seq<Seq<char>> {
    parts.map_values(|s: String| s@)
}

/// `parts` joined with `sep` between consecutive elements.
pub open spec fn seq_join(parts: Seq<Seq<char>>, sep: Seq<char>) -> Seq<char>
    decreases parts.len(),
{
    if parts.len() == 0 {
        Seq::empty()
    } else if parts.len() == 1 {
        parts[0]
    } else {
        parts[0] + sep + seq_join(parts.subrange(1, parts.len() as int), sep)
    }
}

/// `s` split at every occurrence of `c`; always at least one part.
pub open spec fn spec_split(s: Seq<char>, c: char) -> Seq<Seq<char>>
    decreases s.len(),
{
    if s.len() == 0 {
        seq![Seq::empty()]
    } else if s[0] == c {
        seq![Seq::<char>::empty()] + spec_split(s.subrange(1, s.len() as int), c)
    } else {
        let r = spec_split(s.subrange(1, s.len() as int), c);
        seq![seq![s[0]] + r[0]] + r.subrange(1, r.len() as int)
    }
}

/// Splitting yields at least one part.
pub proof fn lemma_split_nonempty(s: Seq<char>, c: char)
    ensures
        spec_split(s, c).len() >= 1,
    decreases s.len(),
{
    if s.len() > 0 {
        lemma_split_nonempty(s.subrange(1, s.len() as int), c);
    }
}

/// `s` with every occurrence of `pat` replaced by `rep`, scanning left to
/// right and never rescanning replaced text.
pub open spec fn spec_replace(s: Seq<char>, pat: Seq<char>, rep: Seq<char>) -> Seq<char>
    decreases s.len(),
{
    if s.len() == 0 {
        Seq::empty()
    } else if 0 < pat.len() <= s.len() && s.subrange(0, pat.len() as int) == pat {
        rep + spec_replace(s.subrange(pat.len() as int, s.len() as int), pat, rep)
    } else {
        seq![s[0]] + spec_replace(s.subrange(1, s.len() as int), pat, rep)
    }
}

/// `n` copies of `c`.
pub open spec fn repeat_char(c: char, n: nat) -> Seq<char> {
    Seq::new(n, |i: int| c)
}

/// Character-for-character string equality.
pub fn str_eq(a: &str, b: &str) -> (r: bool)
    ensures
        r == (a@ == b@),
{
    let n: usize = a.unicode_len();
    if n != b.unicode_len() {
        return false;
    }
    let mut i: usize = 0;
    while i < n
        invariant
            n == a@.len(),
            n == b@.len(),
            i <= n,
            forall|j: int| 0 <= j < i ==> a@[j] == b@[j],
        decreases n - i,
    {
        if a.get_char(i) != b.get_char(i) {
            return false;
        }
        i = i + 1;
    }
    proof {
        assert(a@ =~= b@);
    }
    true
}

/// Whether the string begins with the character `c`.
pub fn starts_with_char(s: &str, c: char) -> (r: bool)
    ensures
        r == (s@.len() > 0 && s@[0] == c),
{
    if s.unicode_len() == 0 {
        false
    } else {
        s.get_char(0) == c
    }
}

/// Whether `list` holds a string equal to `s`.
pub fn contains_str(list: &[String], s: &str) -> (r: bool)
    ensures
        r == views_of(list@).contains(s@),
{
    let n: usize = list.len();
    let mut i: usize = 0;
    while i < n
        invariant
            n == list@.len(),
            i <= n,
            forall|j: int| 0 <= j < i ==> views_of(list@)[j] != s@,
        decreases n - i,
    {
        if str_eq(list[i].as_str(), s) {
            proof {
                assert(views_of(list@)[i as int] == s@);
            }
            return true;
        }
        i = i + 1;
    }
    proof {
        assert(forall|j: int| 0 <= j < views_of(list@).len() ==> views_of(list@)[j] != s@);
    }
    false
}

/// `parts` joined with `sep` between consecutive elements.
pub fn join_strings(parts: &[String], sep: &str) -> (r: String)
    ensures
        r@ == seq_join(views_of(parts@), sep@),
{
    let n: usize = parts.len();
    let mut out = String::new();
    if n == 0 {
        return out;
    }
    out.append(parts[0].as_str());
    let mut i: usize = 1;
    while i < n
        invariant
            n == parts@.len(),
            1 <= i <= n,
            out@ == seq_join(views_of(parts@.subrange(0, i as int)), sep@),
        decreases n - i,
    {
        out.append(sep);
        out.append(parts[i].as_str());
        proof {
            lemma_join_push(views_of(parts@.subrange(0, i as int)), sep@, parts@[i as int]@);
            assert(views_of(parts@.subrange(0, i + 1)) =~= views_of(parts@.subrange(0, i as int)).push(parts@[i as int]@));
        }
        i = i + 1;
    }
    proof {
        assert(parts@.subrange(0, n as int) =~= parts@);
    }
    out
}

/// Joining after appending one more part appends one separator and the part.
pub proof fn lemma_join_push(parts: Seq<Seq<char>>, sep: Seq<char>, last: Seq<char>)
    requires
        parts.len() >= 1,
    ensures
        seq_join(parts.push(last), sep) == seq_join(parts, sep) + sep + last,
    decreases parts.len(),
{
    if parts.len() == 1 {
        assert(parts.push(last).subrange(1, 2) =~= seq![last]);
        assert(seq_join(seq![last], sep) == last);
        assert(parts.push(last)[0] == parts[0]);
    } else {
        let tail = parts.subrange(1, parts.len() as int);
        lemma_join_push(tail, sep, last);
        assert(parts.push(last).subrange(1, parts.len() as int + 1) =~= tail.push(last));
        assert(seq_join(parts, sep) + sep + last =~= parts[0] + sep + (seq_join(tail, sep) + sep
            + last));
    }
}

/// Whether `pat` occurs in `s` starting at position `i`.
pub fn matches_at(s: &str, i: usize, pat: &str) -> (r: bool)
    requires
        i <= s@.len(),
    ensures
        r == (i + pat@.len() <= s@.len() && s@.subrange(i as int, i + pat@.len()) == pat@),
{
    let m: usize = pat.unicode_len();
    let n: usize = s.unicode_len();
    if m > n - i {
        return false;
    }
    let mut j: usize = 0;
    while j < m
        invariant
            m == pat@.len(),
            n == s@.len(),
            i + m <= n,
            j <= m,
            forall|k: int| 0 <= k < j ==> s@[i + k] == pat@[k],
        decreases m - j,
    {
        if s.get_char(i + j) != pat.get_char(j) {
            proof {
                assert(s@.subrange(i as int, i + pat@.len())[j as int] != pat@[j as int]);
            }
            return false;
        }
        j = j + 1;
    }
    proof {
        assert(s@.subrange(i as int, i + pat@.len()) =~= pat@);
    }
    true
}

/// `s` with every occurrence of `pat` replaced by `rep`.
pub fn replace_all(s: &str, pat: &str, rep: &str) -> (r: String)
    requires
        pat@.len() > 0,
    ensures
        r@ == spec_replace(s@, pat@, rep@),
{
    let n: usize = s.unicode_len();
    let mut out = String::new();
    let mut i: usize = 0;
    proof {
        assert(s@.subrange(0, n as int) =~= s@);
        assert(Seq::<char>::empty() + spec_replace(s@, pat@, rep@) =~= spec_replace(
            s@,
            pat@,
            rep@,
        ));
    }
    while i < n
        invariant
            n == s@.len(),
            i <= n,
            pat@.len() > 0,
            spec_replace(s@, pat@, rep@) == out@ + spec_replace(
                s@.subrange(i as int, n as int),
                pat@,
                rep@,
            ),
        decreases n - i,
    {
        let ghost rest = s@.subrange(i as int, n as int);
        if matches_at(s, i, pat) {
            out.append(rep);
            proof {
                assert(rest.subrange(0, pat@.len() as int) =~= s@.subrange(
                    i as int,
                    i + pat@.len(),
                ));
                assert(rest.subrange(pat@.len() as int, rest.len() as int) =~= s@.subrange(
                    i + pat@.len(),
                    n as int,
                ));
            }
            i = i + pat.unicode_len();
        } else {
            let c = s.get_char(i);
            let ghost old_out = out@;
            push_char(&mut out, c);
            proof {
                if 0 < pat@.len() <= rest.len() && rest.subrange(0, pat@.len() as int) == pat@ {
                    assert(rest.subrange(0, pat@.len() as int) =~= s@.subrange(
                        i as int,
                        i + pat@.len(),
                    ));
                }
                assert(rest.subrange(1, rest.len() as int) =~= s@.subrange(i + 1, n as int));
                assert(out@ == old_out + seq![s@[i as int]]) by {
                    assert(out@ =~= old_out + seq![s@[i as int]]);
                }
            }
            i = i + 1;
        }
    }
    proof {
        assert(s@.subrange(n as int, n as int) =~= Seq::<char>::empty());
        assert(out@ =~= out@ + Seq::<char>::empty());
    }
    out
}

/// A string of `n` spaces.
pub fn spaces(n: usize) -> (r: String)
    ensures
        r@ == repeat_char(' ', n as nat),
{
    let mut out = String::new();
    let mut i: usize = 0;
    while i < n
        invariant
            i <= n,
            out@ == repeat_char(' ', i as nat),
        decreases n - i,
    {
        push_char(&mut out, ' ');
        proof {
            assert(out@ =~= repeat_char(' ', (i + 1) as nat));
        }
        i = i + 1;
    }
    out
}

/// The texts produced by `f` for each element of `s`, concatenated in order.
pub open spec fn concat_map<T>(s: Seq<T>, f: spec_fn(T) -> Seq<char>) -> Seq<char>
    decreases s.len(),
{
    if s.len() == 0 {
        Seq::empty()
    } else {
        f(s[0]) + concat_map(s.subrange(1, s.len() as int), f)
    }
}

/// `s` split at every occurrence of `c`, as [`spec_split`] describes.
pub fn split_char(s: &str, c: char) -> (r: Vec<String>)
    ensures
        views_of(r@) == spec_split(s@, c),
{
    let n: usize = s.unicode_len();
    let mut parts: Vec<String> = Vec::new();
    let mut current = String::new();
    let mut i: usize = 0;
    proof {
        assert(s@.subrange(0, n as int) =~= s@);
        lemma_split_nonempty(s@, c);
        let rest = spec_split(s@, c);
        assert(views_of(parts@) + seq![current@ + rest[0]] + rest.subrange(1, rest.len() as int)
            =~= seq![rest[0]] + rest.subrange(1, rest.len() as int));
        assert(seq![rest[0]] + rest.subrange(1, rest.len() as int) =~= rest);
    }
    while i < n
        invariant
            i <= n,
            n == s@.len(),
            ({
                let rest = spec_split(s@.subrange(i as int, n as int), c);
                spec_split(s@, c) =~= views_of(parts@) + seq![current@ + rest[0]] + rest.subrange(
                    1,
                    rest.len() as int,
                )
            }),
        decreases n - i,
    {
        let ghost rest_s = s@.subrange(i as int, n as int);
        let ghost old_parts = parts@;
        let ghost old_cur = current@;
        let ghost r0 = spec_split(rest_s, c);
        let ghost rest2 = spec_split(s@.subrange(i + 1, n as int), c);
        proof {
            lemma_split_nonempty(s@.subrange(i + 1, n as int), c);
            assert(rest_s.subrange(1, rest_s.len() as int) =~= s@.subrange(i + 1, n as int));
            assert(rest_s[0] == s@[i as int]);
        }
        let ch = s.get_char(i);
        if ch == c {
            parts.push(current);
            current = String::new();
            proof {
                assert(r0 == seq![Seq::<char>::empty()] + rest2);
                assert(r0[0] =~= Seq::<char>::empty());
                assert(r0.subrange(1, r0.len() as int) =~= rest2);
                assert(old_cur + r0[0] =~= old_cur);
                assert(views_of(parts@) =~= views_of(old_parts).push(old_cur));
                assert(spec_split(s@, c) =~= views_of(old_parts) + seq![old_cur] + rest2);
                assert(current@ + rest2[0] =~= rest2[0]);
                assert(views_of(parts@) + seq![current@ + rest2[0]] + rest2.subrange(
                    1,
                    rest2.len() as int,
                ) =~= views_of(old_parts) + seq![old_cur] + (seq![rest2[0]] + rest2.subrange(
                    1,
                    rest2.len() as int,
                )));
                assert(seq![rest2[0]] + rest2.subrange(1, rest2.len() as int) =~= rest2);
            }
        } else {
            push_char(&mut current, ch);
            proof {
                assert(r0 == seq![seq![rest_s[0]] + rest2[0]] + rest2.subrange(
                    1,
                    rest2.len() as int,
                ));
                assert(r0[0] =~= seq![rest_s[0]] + rest2[0]);
                assert(r0.subrange(1, r0.len() as int) =~= rest2.subrange(1, rest2.len() as int));
                assert(current@ =~= old_cur.push(ch));
                assert(current@ + rest2[0] =~= old_cur + r0[0]);
                assert(views_of(parts@) + seq![current@ + rest2[0]] + rest2.subrange(
                    1,
                    rest2.len() as int,
                ) =~= views_of(old_parts) + seq![old_cur + r0[0]] + r0.subrange(
                    1,
                    r0.len() as int,
                ));
            }
        }
        i = i + 1;
    }
    parts.push(current);
    proof {
        assert(s@.subrange(n as int, n as int) =~= Seq::<char>::empty());
        let rest = spec_split(Seq::<char>::empty(), c);
        assert(rest =~= seq![Seq::<char>::empty()]);
        assert(views_of(parts@) =~= views_of(parts@.subrange(0, parts@.len() - 1)).push(
            parts@.last()@,
        ));
        assert(views_of(parts@.subrange(0, parts@.len() - 1)) + seq![current@ + rest[0]]
            + rest.subrange(1, 1) =~= views_of(parts@));
    }
    parts
}

/// Mapping to views commutes with appending one string.
pub proof fn lemma_views_push(s: Seq<String>, x: String)
    ensures
        views_of(s.push(x)) == views_of(s).push(x@),
{
    assert(views_of(s.push(x)) =~= views_of(s).push(x@)) by {
        assert forall|k: int| 0 <= k < s.len() + 1 implies views_of(s.push(x))[k] == views_of(
            s,
        ).push(x@)[k] by {
            if k < s.len() {
                assert(s.push(x)[k] == s[k]);
            } else {
                assert(s.push(x)[k] == x);
            }
        }
    }
}

/// The command path extended by one more name.
pub fn extend_path(command_name_arr: &[String], name: &String) -> (r: Vec<String>)
    ensures
        views_of(r@) == views_of(command_name_arr@).push(name@),
{
    let mut child_cmd: Vec<String> = Vec::new();
    let nc: usize = command_name_arr.len();
    let mut k: usize = 0;
    while k < nc
        invariant
            nc == command_name_arr@.len(),
            k <= nc,
            views_of(child_cmd@) =~= views_of(command_name_arr@.subrange(0, k as int)),
        decreases nc - k,
    {
        let ghost old_cc = child_cmd@;
        child_cmd.push(command_name_arr[k].clone());
        proof {
            lemma_views_push(old_cc, command_name_arr@[k as int]);
            assert(views_of(child_cmd@) =~= views_of(command_name_arr@.subrange(0, k + 1)));
        }
        k = k + 1;
    }
    let ghost cc0 = child_cmd@;
    child_cmd.push(name.clone());
    proof {
        lemma_views_push(cc0, *name);
        assert(command_name_arr@.subrange(0, nc as int) =~= command_name_arr@);
        assert(views_of(child_cmd@) =~= views_of(command_name_arr@).push(name@));
    }
    child_cmd
}

/// Relies on `String::push`: appends exactly the one character.
#[verifier::external_body]
pub fn push_char(out: &mut String, c: char)
    ensures
        final(out)@ == old(out)@.push(c),
{
    out.push(c);
}

} // verus!
