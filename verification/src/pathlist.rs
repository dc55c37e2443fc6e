//! Search-path strings: joining an ordered list of directory paths into one
//! PATH-like string with the platform's list separator, splitting such a
//! string back apart, and the proof that the two are inverse to one another.

use vstd::prelude::*;
use vstd::string::StrSliceExecFns;
use vstd::string::StringExecFns;

verus! {

/// Relies on `String::push`: appends the given character to the end of the
/// string.
pub assume_specification[ String::push ](s: &mut String, ch: char)
    ensures
        final(s)@ == old(s)@.push(ch),
;

/// The PATH-like string that an ordered list of paths joins into: the paths
/// in order, with one `sep` between each neighbouring pair.
pub open spec fn join_spec(paths: Seq<Seq<char>>, sep: char) -> Seq<char>
    decreases paths.len(),
{
    if paths.len() == 0 {
        Seq::empty()
    } else if paths.len() == 1 {
        paths[0]
    } else {
        paths[0] + seq![sep] + join_spec(paths.drop_first(), sep)
    }
}

/// The pieces a string falls into at every occurrence of `sep`: always one
/// piece more than there are separators, so never empty.
pub open spec fn split_spec(s: Seq<char>, sep: char) -> Seq<Seq<char>>
    decreases s.len(),
{
    if s.len() == 0 {
        seq![Seq::<char>::empty()]
    } else if s[0] == sep {
        seq![Seq::<char>::empty()] + split_spec(s.drop_first(), sep)
    } else {
        let rest = split_spec(s.drop_first(), sep);
        seq![seq![s[0]] + rest[0]] + rest.drop_first()
    }
}

pub proof fn lemma_split_len_pos(s: Seq<char>, sep: char)
    ensures
        split_spec(s, sep).len() >= 1,
    decreases s.len(),
{
    if s.len() == 0 {
    } else {
        lemma_split_len_pos(s.drop_first(), sep);
    }
}

/// A string free of separators splits into just itself.
pub proof fn lemma_split_sep_free(p: Seq<char>, sep: char)
    requires
        !p.contains(sep),
    ensures
        split_spec(p, sep) == seq![p],
    decreases p.len(),
{
    if p.len() == 0 {
        assert(p =~= Seq::<char>::empty());
        assert(split_spec(p, sep) =~~= seq![p]);
    } else {
        assert(p[0] != sep) by {
            if p[0] == sep {
                assert(p.contains(sep));
            }
        }
        assert(!p.drop_first().contains(sep)) by {
            if p.drop_first().contains(sep) {
                let i = choose|i: int|
                    0 <= i < p.drop_first().len() && p.drop_first()[i] == sep;
                assert(p[i + 1] == sep);
                assert(p.contains(sep));
            }
        }
        lemma_split_sep_free(p.drop_first(), sep);
        assert(seq![p[0]] + p.drop_first() =~= p);
        assert(split_spec(p, sep) =~~= seq![p]);
    }
}

/// Splitting starts over after each separator: a separator-free prefix, one
/// separator, then anything yields the prefix followed by the split of the
/// rest.
pub proof fn lemma_split_after_sep(p: Seq<char>, t: Seq<char>, sep: char)
    requires
        !p.contains(sep),
    ensures
        split_spec(p + seq![sep] + t, sep) == seq![p] + split_spec(t, sep),
    decreases p.len(),
{
    let s = p + seq![sep] + t;
    if p.len() == 0 {
        assert(s[0] == sep);
        assert(s.drop_first() =~= t);
        assert(p =~= Seq::<char>::empty());
        assert(split_spec(s, sep) =~~= seq![p] + split_spec(t, sep));
    } else {
        assert(s[0] == p[0]);
        assert(p[0] != sep) by {
            if p[0] == sep {
                assert(p.contains(sep));
            }
        }
        assert(!p.drop_first().contains(sep)) by {
            if p.drop_first().contains(sep) {
                let i = choose|i: int|
                    0 <= i < p.drop_first().len() && p.drop_first()[i] == sep;
                assert(p[i + 1] == sep);
                assert(p.contains(sep));
            }
        }
        assert(s.drop_first() =~= p.drop_first() + seq![sep] + t);
        lemma_split_after_sep(p.drop_first(), t, sep);
        let rest = split_spec(s.drop_first(), sep);
        assert(rest == seq![p.drop_first()] + split_spec(t, sep));
        assert(rest[0] == p.drop_first());
        assert(rest.drop_first() =~= split_spec(t, sep));
        assert(seq![s[0]] + rest[0] =~= p);
        assert(split_spec(s, sep) =~~= seq![p] + split_spec(t, sep));
    }
}

/// Round-trip law: a joined path-list string, split back at the same
/// separator, reproduces exactly the paths that were joined, in their
/// original order — provided there was at least one path and no path
/// contained the separator.
pub proof fn lemma_join_split_roundtrip(paths: Seq<Seq<char>>, sep: char)
    requires
        paths.len() >= 1,
        forall|i: int| 0 <= i < paths.len() ==> !(#[trigger] paths[i]).contains(sep),
    ensures
        split_spec(join_spec(paths, sep), sep) == paths,
    decreases paths.len(),
{
    if paths.len() == 1 {
        lemma_split_sep_free(paths[0], sep);
        assert(split_spec(join_spec(paths, sep), sep) =~~= paths);
    } else {
        let tail = paths.drop_first();
        assert(forall|i: int| 0 <= i < tail.len() ==> !(#[trigger] tail[i]).contains(sep)) by {
            assert(forall|i: int| 0 <= i < tail.len() ==> tail[i] == paths[i + 1]);
        }
        lemma_join_split_roundtrip(tail, sep);
        lemma_split_after_sep(paths[0], join_spec(tail, sep), sep);
        assert(split_spec(join_spec(paths, sep), sep) =~~= paths);
    }
}

/// Appending one more path to a non-empty list appends one separator and the
/// path to the joined string.
proof fn lemma_join_push(paths: Seq<Seq<char>>, p: Seq<char>, sep: char)
    ensures
        paths.len() == 0 ==> join_spec(paths.push(p), sep) == p,
        paths.len() > 0 ==> join_spec(paths.push(p), sep)
            == join_spec(paths, sep) + seq![sep] + p,
    decreases paths.len(),
{
    if paths.len() == 0 {
        assert(join_spec(paths.push(p), sep) == paths.push(p)[0]);
        assert(paths.push(p)[0] == p);
    } else if paths.len() == 1 {
        assert(paths.push(p).drop_first() =~= seq![p]);
        assert(join_spec(seq![p], sep) == seq![p][0]);
        assert(join_spec(paths.push(p), sep) == paths[0] + seq![sep] + p);
        assert(join_spec(paths, sep) == paths[0]);
    } else {
        assert(paths.push(p).drop_first() =~= paths.drop_first().push(p));
        lemma_join_push(paths.drop_first(), p, sep);
        assert(join_spec(paths.push(p), sep)
            =~= join_spec(paths, sep) + seq![sep] + p);
    }
}

/// Whether `s` holds the character `c` anywhere.
pub fn str_contains_char(s: &str, c: char) -> (r: bool)
    ensures
        r == s@.contains(c),
{
    let n = s.unicode_len();
    let mut i: usize = 0;
    while i < n
        invariant
            n == s@.len(),
            0 <= i <= n,
            forall|j: int| 0 <= j < i ==> s@[j] != c,
        decreases n - i,
    {
        if s.get_char(i) == c {
            assert(s@.contains(c)) by {
                assert(s@[i as int] == c);
            }
            return true;
        }
        i = i + 1;
    }
    false
}

/// Joins `paths` in order into one PATH-like string with `sep` between
/// neighbours. Succeeds exactly when no path holds the separator itself;
/// otherwise the join could not be split back apart and `None` comes back.
pub fn join_path_list(paths: &Vec<String>, sep: char) -> (r: Option<String>)
    ensures
        r is Some <==> (forall|i: int|
            0 <= i < paths.deep_view().len() ==> !(#[trigger] paths.deep_view()[i]).contains(sep)),
        r matches Some(joined) ==> joined@ == join_spec(paths.deep_view(), sep),
{
    let mut out = String::new();
    let mut i: usize = 0;
    while i < paths.len()
        invariant
            0 <= i <= paths@.len(),
            paths.deep_view().len() == paths@.len(),
            forall|j: int| 0 <= j < i ==> !(#[trigger] paths.deep_view()[j]).contains(sep),
            out@ == join_spec(paths.deep_view().take(i as int), sep),
        decreases paths@.len() - i,
    {
        if str_contains_char(paths[i].as_str(), sep) {
            assert(paths.deep_view()[i as int].contains(sep));
            return None;
        }
        if i > 0 {
            out.push(sep);
        }
        out.append(paths[i].as_str());
        proof {
            let dv = paths.deep_view();
            assert(dv.take(i + 1) =~= dv.take(i as int).push(dv[i as int]));
            lemma_join_push(dv.take(i as int), dv[i as int], sep);
            assert(dv.take(i as int).len() == i);
        }
        i = i + 1;
    }
    proof {
        assert(paths.deep_view().take(paths@.len() as int) =~= paths.deep_view());
    }
    Some(out)
}

/// The sequence of pieces the current scan position still owes, with the
/// piece under construction glued onto the front of the first of them.
spec fn glue_first(p: Seq<char>, parts: Seq<Seq<char>>) -> Seq<Seq<char>>
    recommends
        parts.len() >= 1,
{
    seq![p + parts[0]] + parts.drop_first()
}

/// Splits `s` at every occurrence of `sep`, undoing [`join_path_list`]: the
/// result is `split_spec(s@, sep)`, one piece more than there are separators.
pub fn split_path_list(s: &str, sep: char) -> (r: Vec<String>)
    ensures
        r.deep_view() == split_spec(s@, sep),
{
    let n = s.unicode_len();
    let mut finished: Vec<String> = Vec::new();
    let mut cur = String::new();
    let mut i: usize = 0;
    proof {
        lemma_split_len_pos(s@, sep);
        assert(s@.skip(0) =~= s@);
        assert(glue_first(cur@, split_spec(s@, sep)) =~~= split_spec(s@, sep));
        assert(finished.deep_view() + glue_first(cur@, split_spec(s@.skip(0), sep))
            =~~= split_spec(s@, sep));
    }
    while i < n
        invariant
            n == s@.len(),
            0 <= i <= n,
            finished.deep_view() + glue_first(cur@, split_spec(s@.skip(i as int), sep))
                == split_spec(s@, sep),
        decreases n - i,
    {
        let ghost pre_finished = finished.deep_view();
        let ghost pre_cur = cur@;
        let ghost suffix = s@.skip(i as int);
        let ghost rest = split_spec(s@.skip(i as int + 1), sep);
        proof {
            assert(suffix.len() > 0);
            assert(suffix[0] == s@[i as int]);
            assert(suffix.drop_first() =~= s@.skip(i as int + 1));
            lemma_split_len_pos(s@.skip(i as int + 1), sep);
        }
        let c = s.get_char(i);
        if c == sep {
            proof {
                assert(split_spec(suffix, sep) == seq![Seq::<char>::empty()] + rest);
            }
            finished.push(cur);
            cur = String::new();
            proof {
                assert(finished.deep_view() =~= pre_finished.push(pre_cur));
                assert(glue_first(pre_cur, seq![Seq::<char>::empty()] + rest)
                    =~~= seq![pre_cur] + rest);
                assert(glue_first(cur@, rest) =~~= rest);
                assert(finished.deep_view() + glue_first(cur@, split_spec(s@.skip(i as int + 1), sep))
                    =~~= split_spec(s@, sep));
            }
        } else {
            cur.push(c);
            proof {
                assert(split_spec(suffix, sep)
                    == seq![seq![suffix[0]] + rest[0]] + rest.drop_first());
                assert(glue_first(pre_cur, split_spec(suffix, sep))
                    =~~= seq![pre_cur + (seq![suffix[0]] + rest[0])] + rest.drop_first());
                assert(pre_cur + (seq![suffix[0]] + rest[0]) =~= cur@ + rest[0]);
                assert(finished.deep_view() + glue_first(cur@, split_spec(s@.skip(i as int + 1), sep))
                    =~~= split_spec(s@, sep));
            }
        }
        i = i + 1;
    }
    let ghost pre_finished = finished.deep_view();
    let ghost pre_cur = cur@;
    finished.push(cur);
    proof {
        assert(s@.skip(n as int) =~= Seq::<char>::empty());
        assert(split_spec(s@.skip(n as int), sep) == seq![Seq::<char>::empty()]);
        assert(glue_first(pre_cur, seq![Seq::<char>::empty()]) =~~= seq![pre_cur]);
        assert(finished.deep_view() =~= pre_finished.push(pre_cur));
        assert(finished.deep_view() =~~= split_spec(s@, sep));
    }
    finished
}

} // verus!
