//! Path normalization for the request resolver.
//!
//! A raw request path is split on separators and cleaned before it is joined
//! under the configured root: empty and `.` components disappear, and `..`
//! pops the preceding component instead of ever escaping upwards. Every
//! component of a normalized path is therefore a real name, so the resolved
//! path always lies in the root's subtree, whatever the request held.

use vstd::prelude::*;

use vstd::string::StrSliceExecFns;
use vstd::string::StringExecFns;

verus! {

/// The path split on `/` into components, separators dropped. The result
/// always holds at least one (possibly empty) component.
pub open spec fn split_path(s: Seq<char>) -> Seq<Seq<char>>
    decreases s.len(),
{
    if s.len() == 0 {
        seq![Seq::<char>::empty()]
    } else if s[0] == '/' {
        seq![Seq::<char>::empty()] + split_path(s.drop_first())
    } else {
        let rest = split_path(s.drop_first());
        seq![seq![s[0]] + rest[0]] + rest.drop_first()
    }
}

/// Splitting never yields zero components, and no component holds a
/// separator.
pub proof fn lemma_split_path_components(s: Seq<char>)
    ensures
        split_path(s).len() >= 1,
        forall|i: int| 0 <= i < split_path(s).len() ==> !(#[trigger] split_path(s)[i]).contains(
            '/'),
    decreases s.len(),
{
    if s.len() == 0 {
        assert(!split_path(s)[0].contains('/'));
    } else {
        lemma_split_path_components(s.drop_first());
        let rest = split_path(s.drop_first());
        if s[0] == '/' {
            assert(!split_path(s)[0].contains('/'));
        } else {
            assert(!(seq![s[0]] + rest[0]).contains('/')) by {
                assert(!rest[0].contains('/'));
                assert(forall|j: int| 0 <= j < (seq![s[0]] + rest[0]).len() ==> (seq![s[0]]
                    + rest[0])[j] != '/');
            }
        }
    }
}

/// Extending the path by one character extends the split: a separator opens
/// a new empty component, any other character grows the last one.
pub proof fn lemma_split_path_snoc(s: Seq<char>, c: char)
    ensures
        c == '/' ==> split_path(s.push(c)) == split_path(s).push(Seq::<char>::empty()),
        c != '/' ==> split_path(s.push(c)) == split_path(s).update(split_path(s).len() - 1,
            split_path(s).last().push(c)),
    decreases s.len(),
{
    lemma_split_path_components(s);
    if s.len() == 0 {
        reveal_with_fuel(split_path, 3);
        if c == '/' {
            assert(s.push(c)[0] == '/');
            assert(s.push(c).drop_first() =~= Seq::<char>::empty());
            assert(split_path(s.push(c)) =~~= split_path(s).push(Seq::<char>::empty()));
        } else {
            assert(s.push(c)[0] == c);
            assert(s.push(c).drop_first() =~= Seq::<char>::empty());
            assert(split_path(s.push(c)) =~~= split_path(s).update(split_path(s).len() - 1,
                split_path(s).last().push(c)));
        }
    } else {
        lemma_split_path_components(s.drop_first());
        lemma_split_path_snoc(s.drop_first(), c);
        assert(s.push(c)[0] == s[0]);
        assert(s.push(c).drop_first() =~= s.drop_first().push(c));
        if c == '/' {
            assert(split_path(s.push(c)) =~~= split_path(s).push(Seq::<char>::empty()));
        } else {
            assert(split_path(s.push(c)) =~~= split_path(s).update(split_path(s).len() - 1,
                split_path(s).last().push(c)));
        }
    }
}

/// The cleaned component list, folded from the front over an accumulator:
/// empty and `.` components are dropped, `..` pops the last kept component
/// if there is one, and any other component is kept.
pub open spec fn clean_from(acc: Seq<Seq<char>>, comps: Seq<Seq<char>>) -> Seq<Seq<char>>
    decreases comps.len(),
{
    if comps.len() == 0 {
        acc
    } else {
        let c = comps[0];
        let rest = comps.drop_first();
        if c.len() == 0 || c == "."@ {
            clean_from(acc, rest)
        } else if c == ".."@ {
            clean_from(if acc.len() > 0 {
                acc.drop_last()
            } else {
                acc
            }, rest)
        } else {
            clean_from(acc.push(c), rest)
        }
    }
}

/// The normalized form of a split path.
pub open spec fn clean_path(comps: Seq<Seq<char>>) -> Seq<Seq<char>> {
    clean_from(Seq::<Seq<char>>::empty(), comps)
}

/// A component that may stand in a resolved path: a real name, not a
/// traversal step, not a separator artifact.
pub open spec fn safe_component(c: Seq<char>) -> bool {
    &&& c.len() > 0
    &&& c != "."@
    &&& c != ".."@
    &&& !c.contains('/')
}

/// Cleaning keeps only safe components, provided the input components hold
/// no separator and the accumulator was safe.
pub proof fn lemma_clean_from_safe(acc: Seq<Seq<char>>, comps: Seq<Seq<char>>)
    requires
        forall|i: int| 0 <= i < acc.len() ==> safe_component(#[trigger] acc[i]),
        forall|i: int| 0 <= i < comps.len() ==> !(#[trigger] comps[i]).contains('/'),
    ensures
        forall|i: int| 0 <= i < clean_from(acc, comps).len() ==> safe_component(
            #[trigger] clean_from(acc, comps)[i]),
    decreases comps.len(),
{
    if comps.len() > 0 {
        let c = comps[0];
        let rest = comps.drop_first();
        assert forall|i: int| 0 <= i < rest.len() implies !(#[trigger] rest[i]).contains(
            '/') by {
            assert(rest[i] == comps[i + 1]);
        }
        if c.len() == 0 || c == "."@ {
            lemma_clean_from_safe(acc, rest);
            assert(clean_from(acc, comps) == clean_from(acc, rest));
        } else if c == ".."@ {
            if acc.len() > 0 {
                let acc2 = acc.drop_last();
                assert forall|i: int| 0 <= i < acc2.len() implies safe_component(
                    #[trigger] acc2[i]) by {
                    assert(acc2[i] == acc[i]);
                }
                lemma_clean_from_safe(acc2, rest);
                assert(clean_from(acc, comps) == clean_from(acc2, rest));
            } else {
                lemma_clean_from_safe(acc, rest);
                assert(clean_from(acc, comps) == clean_from(acc, rest));
            }
        } else {
            assert(safe_component(c));
            let acc2 = acc.push(c);
            assert forall|i: int| 0 <= i < acc2.len() implies safe_component(
                #[trigger] acc2[i]) by {
                if i < acc.len() {
                    assert(acc2[i] == acc[i]);
                } else {
                    assert(acc2[i] == c);
                }
            }
            lemma_clean_from_safe(acc2, rest);
            assert(clean_from(acc, comps) == clean_from(acc2, rest));
        }
    }
}

/// Every raw request path normalizes to safe components alone: none is
/// empty, a dot or a dot-dot, and none holds a separator. Joined under the
/// root, the resolved path therefore stays in the root's subtree.
pub proof fn lemma_normalized_path_is_safe(raw: Seq<char>)
    ensures
        forall|i: int| 0 <= i < clean_path(split_path(raw)).len() ==> safe_component(
            #[trigger] clean_path(split_path(raw))[i]),
{
    lemma_split_path_components(raw);
    lemma_clean_from_safe(Seq::<Seq<char>>::empty(), split_path(raw));
}

/// The root followed by `/` and each component in turn.
pub open spec fn join_from(acc: Seq<char>, comps: Seq<Seq<char>>) -> Seq<char>
    decreases comps.len(),
{
    if comps.len() == 0 {
        acc
    } else {
        join_from(acc + "/"@ + comps[0], comps.drop_first())
    }
}

/// Joining components under a root never rewrites the root: the result
/// starts with it unchanged.
pub proof fn lemma_join_keeps_root(acc: Seq<char>, comps: Seq<Seq<char>>)
    ensures
        join_from(acc, comps).len() >= acc.len(),
        join_from(acc, comps).take(acc.len() as int) == acc,
    decreases comps.len(),
{
    if comps.len() == 0 {
        assert(join_from(acc, comps).take(acc.len() as int) =~= acc);
    } else {
        let next = acc + "/"@ + comps[0];
        lemma_join_keeps_root(next, comps.drop_first());
        assert(join_from(acc, comps).take(acc.len() as int) =~= acc) by {
            assert(join_from(next, comps.drop_first()).take(next.len() as int) == next);
            assert(forall|j: int| 0 <= j < acc.len() ==> next[j] == acc[j]);
        }
    }
}

/// Splits a raw request path on `/` into its components.
pub fn split_components(raw: &str) -> (r: Vec<String>)
    ensures
        r@.map_values(|c: String| c@) == split_path(raw@),
{
    let n = raw.unicode_len();
    let mut done: Vec<String> = Vec::new();
    let mut cur: String = String::new();
    let mut i: usize = 0;
    while i < n
        invariant
            n == raw@.len(),
            i <= n,
            done@.map_values(|c: String| c@).push(cur@) == split_path(raw@.take(i as int)),
        decreases n - i,
    {
        let ghost prefix = raw@.take(i as int);
        let c = raw.get_char(i);
        proof {
            assert(raw@.take(i + 1 as int) =~= prefix.push(c));
            lemma_split_path_snoc(prefix, c);
            lemma_split_path_components(prefix);
        }
        if c == '/' {
            done.push(cur);
            cur = String::new();
            proof {
                assert(done@.map_values(|c: String| c@).push(cur@) =~= split_path(raw@.take(
                    i + 1 as int)));
            }
        } else {
            cur.append(raw.substring_char(i, i + 1));
            proof {
                assert(raw@.subrange(i as int, i + 1 as int) =~= seq![c]);
                assert(cur@ =~= split_path(prefix).last().push(c));
                assert(done@.map_values(|c: String| c@).push(cur@) =~= split_path(raw@.take(
                    i + 1 as int)));
            }
        }
        i += 1;
    }
    proof {
        assert(raw@.take(n as int) =~= raw@);
    }
    done.push(cur);
    proof {
        assert(done@.map_values(|c: String| c@) =~= split_path(raw@));
    }
    done
}

/// Cleans split components: drops empties and `.`, lets `..` pop the
/// previous component, and keeps the rest in order.
pub fn clean_components(comps: Vec<String>) -> (r: Vec<String>)
    ensures
        r@.map_values(|c: String| c@) == clean_path(comps@.map_values(|c: String| c@)),
{
    let ghost all = comps@.map_values(|c: String| c@);
    let n = comps.len();
    let mut stack: Vec<String> = Vec::new();
    let mut i: usize = 0;
    proof {
        assert(all.skip(0) =~= all);
        assert(stack@.map_values(|c: String| c@) =~= Seq::<Seq<char>>::empty());
    }
    while i < n
        invariant
            n == comps@.len(),
            i <= n,
            all == comps@.map_values(|c: String| c@),
            clean_from(stack@.map_values(|c: String| c@), all.skip(i as int)) == clean_from(
                Seq::<Seq<char>>::empty(), all),
        decreases n - i,
    {
        let ghost acc = stack@.map_values(|c: String| c@);
        proof {
            assert(all.skip(i as int)[0] == all[i as int]);
            assert(all.skip(i as int).drop_first() =~= all.skip(i + 1 as int));
        }
        let c = &comps[i];
        if c.as_str().is_empty() || *c == ".".to_owned() {
        } else if *c == "..".to_owned() {
            if stack.len() > 0 {
                stack.pop();
                proof {
                    assert(stack@.map_values(|c: String| c@) =~= acc.drop_last());
                }
            }
        } else {
            stack.push(c.clone());
            proof {
                assert(stack@.map_values(|c: String| c@) =~= acc.push(all[i as int]));
            }
        }
        i += 1;
    }
    proof {
        assert(all.skip(n as int) =~= Seq::<Seq<char>>::empty());
    }
    stack
}

/// Normalizes a raw request path: splits it on `/` and cleans the
/// components, so that only safe names remain.
pub fn normalize_path(raw: &str) -> (r: Vec<String>)
    ensures
        r@.map_values(|c: String| c@) == clean_path(split_path(raw@)),
{
    let parts = split_components(raw);
    clean_components(parts)
}

/// Joins normalized components under the root directory, one `/` before
/// each component.
pub fn join_under_root(root: &str, comps: &Vec<String>) -> (r: String)
    ensures
        r@ == join_from(root@, comps@.map_values(|c: String| c@)),
{
    let ghost all = comps@.map_values(|c: String| c@);
    let n = comps.len();
    let mut r = root.to_owned();
    let mut i: usize = 0;
    proof {
        assert(all.skip(0) =~= all);
    }
    while i < n
        invariant
            n == comps@.len(),
            i <= n,
            all == comps@.map_values(|c: String| c@),
            join_from(r@, all.skip(i as int)) == join_from(root@, all),
        decreases n - i,
    {
        let ghost before = r@;
        proof {
            assert(all.skip(i as int)[0] == all[i as int]);
            assert(all.skip(i as int).drop_first() =~= all.skip(i + 1 as int));
        }
        r.append("/");
        r.append(comps[i].as_str());
        proof {
            assert(r@ =~= before + "/"@ + all[i as int]);
        }
        i += 1;
    }
    proof {
        assert(all.skip(n as int) =~= Seq::<Seq<char>>::empty());
    }
    r
}

/// Resolves a raw request path to its location under the root: the root,
/// then each normalized component behind one separator. Traversal steps in
/// the raw path can drop components but never rise above the root.
pub fn resolve_under_root(root: &str, raw: &str) -> (r: String)
    ensures
        r@ == join_from(root@, clean_path(split_path(raw@))),
        r@.len() >= root@.len(),
        r@.take(root@.len() as int) == root@,
{
    let comps = normalize_path(raw);
    let r = join_under_root(root, &comps);
    proof {
        lemma_join_keeps_root(root@, clean_path(split_path(raw@)));
    }
    r
}

/// The index of the last occurrence of a character, or -1.
pub open spec fn last_index_of(s: Seq<char>, c: char) -> int
    decreases s.len(),
{
    if s.len() == 0 {
        -1
    } else if s[s.len() - 1] == c {
        s.len() - 1
    } else {
        last_index_of(s.drop_last(), c)
    }
}

/// `last_index_of` names the last occurrence, and -1 means there is none.
pub proof fn lemma_last_index_of(s: Seq<char>, c: char)
    ensures
        last_index_of(s, c) == -1 ==> forall|j: int| 0 <= j < s.len() ==> s[j] != c,
        last_index_of(s, c) != -1 ==> 0 <= last_index_of(s, c) < s.len() && s[last_index_of(
            s, c)] == c && forall|j: int| last_index_of(s, c) < j < s.len() ==> s[j] != c,
    decreases s.len(),
{
    if s.len() > 0 && s[s.len() - 1] != c {
        let t = s.drop_last();
        lemma_last_index_of(t, c);
        assert(forall|j: int| 0 <= j < t.len() ==> t[j] == s[j]);
    }
}

/// `last_index_of` returns the position of an occurrence with none after it.
proof fn lemma_last_index_of_at(s: Seq<char>, c: char, i: int)
    requires
        0 <= i < s.len(),
        s[i] == c,
        forall|j: int| i < j < s.len() ==> s[j] != c,
    ensures
        last_index_of(s, c) == i,
    decreases s.len(),
{
    if i < s.len() - 1 {
        let t = s.drop_last();
        assert(forall|j: int| 0 <= j < t.len() ==> t[j] == s[j]);
        lemma_last_index_of_at(t, c, i);
    }
}

/// The position of the last occurrence of a character, if any.
fn find_last(s: &str, c: char) -> (r: Option<usize>)
    ensures
        match r {
            Some(i) => i < s@.len() && last_index_of(s@, c) == i as int,
            None => last_index_of(s@, c) == -1,
        },
{
    let n = s.unicode_len();
    let mut i: usize = n;
    while i > 0
        invariant
            n == s@.len(),
            i <= n,
            forall|j: int| i <= j < n ==> s@[j] != c,
        decreases i,
    {
        i -= 1;
        if s.get_char(i) == c {
            proof {
                lemma_last_index_of_at(s@, c, i as int);
            }
            return Some(i);
        }
    }
    proof {
        lemma_last_index_of(s@, c);
    }
    None
}

/// The file-name extension of a path: the characters after the last `.`,
/// provided that dot stands in the last component and not at its start
/// (a name that begins with its only dot has no extension).
pub open spec fn spec_extension(s: Seq<char>) -> Option<Seq<char>> {
    let ls = last_index_of(s, '/');
    let ld = last_index_of(s, '.');
    if ld <= ls + 1 {
        None
    } else {
        Some(s.subrange(ld + 1, s.len() as int))
    }
}

/// Extracts the file-name extension of a path, if it has one.
pub fn extension_of(path: &str) -> (r: Option<String>)
    ensures
        match r {
            Some(e) => spec_extension(path@) == Some(e@),
            None => spec_extension(path@) is None,
        },
{
    let n = path.unicode_len();
    proof {
        lemma_last_index_of(path@, '.');
        lemma_last_index_of(path@, '/');
    }
    let ld = match find_last(path, '.') {
        None => {
            return None;
        },
        Some(i) => i,
    };
    let cut = match find_last(path, '/') {
        None => 0usize,
        Some(i) => i + 1,
    };
    if ld <= cut {
        return None;
    }
    let e = path.substring_char(ld + 1, n);
    Some(e.to_owned())
}

} // verus!
