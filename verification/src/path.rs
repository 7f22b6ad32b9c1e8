//! Virtual paths. A path is text in which `/` separates segments, whatever
//! the host system uses: an empty segment and `.` stand for nothing, `..`
//! drops the segment before it, and no path leads above the root.

use vstd::prelude::*;
use vstd::string::StringExecFns;

verus! {

/// The pieces of `s` that its separators delimit, from left to right. There
/// is one piece more than there are separators, and pieces may be empty.
pub open spec fn segments(s: Seq<char>) -> Seq<Seq<char>>
    decreases s.len(),
{
    if s.len() == 0 {
        seq![Seq::empty()]
    } else {
        let before = segments(s.drop_last());
        if s.last() == '/' {
            before.push(Seq::empty())
        } else {
            before.drop_last().push(before.last().push(s.last()))
        }
    }
}

/// The components that are left when `seg` follows the components `stack`.
pub open spec fn step(stack: Seq<Seq<char>>, seg: Seq<char>) -> Seq<Seq<char>> {
    if seg.len() == 0 || seg == seq!['.'] {
        stack
    } else if seg == seq!['.', '.'] {
        if stack.len() > 0 {
            stack.drop_last()
        } else {
            stack
        }
    } else {
        stack.push(seg)
    }
}

/// The components that are left when the segments `segs` have been followed
/// from the root, one after the other.
pub open spec fn resolve(segs: Seq<Seq<char>>) -> Seq<Seq<char>>
    decreases segs.len(),
{
    if segs.len() == 0 {
        Seq::empty()
    } else {
        step(resolve(segs.drop_last()), segs.last())
    }
}

/// The names that `path` leads through, from the root down.
pub open spec fn components(path: Seq<char>) -> Seq<Seq<char>> {
    resolve(segments(path))
}

/// Whether `path` starts at the root.
pub open spec fn is_rooted(path: Seq<char>) -> bool {
    path.len() > 0 && path[0] == '/'
}

/// The text in which one separator stands between each two of `parts`.
pub open spec fn joined(parts: Seq<Seq<char>>) -> Seq<char>
    decreases parts.len(),
{
    if parts.len() == 0 {
        Seq::empty()
    } else if parts.len() == 1 {
        parts[0]
    } else {
        joined(parts.drop_last()) + seq!['/'] + parts.last()
    }
}

/// The shortest spelling of `path`: its components with one separator
/// between each two, behind a leading separator if `path` has one.
pub open spec fn normalized(path: Seq<char>) -> Seq<char> {
    if is_rooted(path) {
        seq!['/'] + joined(components(path))
    } else {
        joined(components(path))
    }
}

/// Whether `seg` can name an entry: it is not empty, neither `.` nor `..`,
/// and holds no separator.
pub open spec fn is_name(seg: Seq<char>) -> bool {
    seg.len() > 0 && seg != seq!['.'] && seg != seq!['.', '.'] && !seg.contains('/')
}

/// Turns a vector of strings into the sequence of their texts.
pub open spec fn texts(v: Seq<String>) -> Seq<Seq<char>> {
    Seq::new(v.len(), |i: int| v[i]@)
}

/// Lets the segment of `path` between `from` and `to` act on `stack`.
fn follow(stack: &mut Vec<String>, path: &str, from: usize, to: usize, dots: bool)
    requires
        from <= to <= path@.len(),
        dots == (forall|k: int| from <= k < to ==> path@[k] == '.'),
    ensures
        texts(final(stack)@) == step(texts(old(stack)@), path@.subrange(from as int, to as int)),
{
    let ghost seg = path@.subrange(from as int, to as int);
    let len = to - from;
    if len == 0 || (dots && len == 1) {
        assert(len == 1 ==> seg =~= seq!['.']);
    } else if dots && len == 2 {
        assert(seg =~= seq!['.', '.']);
        if stack.len() > 0 {
            stack.pop();
            assert(texts(stack@) =~= texts(old(stack)@).drop_last());
        }
    } else {
        assert(seg != seq!['.']) by {
            if seg == seq!['.'] {
                assert(seg.len() == 1);
                assert(forall|k: int| from <= k < to ==> path@[k] == seg[k - from]);
            }
        }
        assert(seg != seq!['.', '.']) by {
            if seg == seq!['.', '.'] {
                assert(seg.len() == 2);
                assert(forall|k: int| from <= k < to ==> path@[k] == seg[k - from]);
            }
        }
        let piece = path.substring_char(from, to);
        stack.push(String::from_str(piece));
        assert(texts(stack@) =~= texts(old(stack)@).push(seg));
    }
}

/// Splits `path` at its separators and follows the segments from the root:
/// the result holds the names that the path leads through, none of them
/// empty, `.` or `..`.
pub fn path_components(path: &str) -> (out: Vec<String>)
    ensures
        texts(out@) == components(path@),
{
    let n = path.unicode_len();
    let mut stack: Vec<String> = Vec::new();
    let mut start: usize = 0;
    let mut dots = true;
    let mut i: usize = 0;
    let ghost done: Seq<Seq<char>> = Seq::empty();
    assert(path@.take(0) =~= Seq::<char>::empty());
    assert(path@.subrange(0, 0) =~= Seq::<char>::empty());
    assert(seq![Seq::<char>::empty()] =~= done.push(Seq::<char>::empty()));
    assert(texts(stack@) =~= resolve(done));
    for c in it: path.chars()
        invariant
            n == path@.len(),
            it.seq() == path@,
            i == it.index(),
            start <= i <= n,
            dots == (forall|k: int| start <= k < i ==> path@[k] == '.'),
            segments(path@.take(i as int)) == done.push(path@.subrange(start as int, i as int)),
            texts(stack@) == resolve(done),
    {
        let ghost cur = path@.subrange(start as int, i as int);
        assert(path@.take(i + 1).drop_last() =~= path@.take(i as int));
        assert(done.push(cur).drop_last() =~= done);
        if c == '/' {
            follow(&mut stack, path, start, i, dots);
            proof {
                done = done.push(cur);
                assert(path@.subrange(i + 1, i + 1) =~= Seq::<char>::empty());
            }
            start = i + 1;
            dots = true;
        } else {
            assert(path@.subrange(start as int, i + 1) =~= cur.push(c));
            if c != '.' {
                dots = false;
            }
        }
        i += 1;
    }
    assert(path@.take(n as int) =~= path@);
    follow(&mut stack, path, start, n, dots);
    assert(done.push(path@.subrange(start as int, n as int)).drop_last() =~= done);
    stack
}

/// Resolves `path` to its shortest spelling: empty segments and `.` are
/// dropped, each `..` drops the component before it, and a `..` with nothing
/// before it is dropped too, so that the result never leads above the root.
/// A leading separator is kept.
pub fn normalize_path(path: &str) -> (out: String)
    ensures
        out@ == normalized(path@),
{
    let parts = path_components(path);
    let mut out = String::new();
    proof {
        reveal_strlit("/");
    }
    if path.unicode_len() > 0 && path.get_char(0) == '/' {
        out.append("/");
    }
    let ghost lead = out@;
    let count = parts.len();
    let mut k: usize = 0;
    assert(texts(parts@).take(0) =~= Seq::<Seq<char>>::empty());
    while k < count
        invariant
            k <= count == parts@.len(),
            "/"@ == seq!['/'],
            out@ == lead + joined(texts(parts@).take(k as int)),
        decreases count - k,
    {
        let ghost before = texts(parts@).take(k as int);
        let ghost now = texts(parts@).take(k + 1);
        assert(now.drop_last() =~= before);
        assert(now.last() == parts@[k as int]@);
        if k > 0 {
            out.append("/");
        }
        out.append(parts[k].as_str());
        assert(out@ =~= lead + joined(now));
        k += 1;
    }
    assert(texts(parts@).take(count as int) =~= texts(parts@));
    out
}

/// No segment holds a separator, and there is at least one segment.
pub proof fn lemma_segments_hold_no_separator(s: Seq<char>)
    ensures
        segments(s).len() >= 1,
        forall|i: int| 0 <= i < segments(s).len() ==> !(#[trigger] segments(s)[i]).contains('/'),
    decreases s.len(),
{
    if s.len() > 0 {
        lemma_segments_hold_no_separator(s.drop_last());
        let before = segments(s.drop_last());
        if s.last() != '/' {
            let grown = before.last().push(s.last());
            assert(!grown.contains('/')) by {
                if grown.contains('/') {
                    let j = choose|j: int| 0 <= j < grown.len() && grown[j] == '/';
                    assert(before.last()[j] == '/');
                    assert(before.last().contains('/'));
                }
            }
        }
    }
}

/// Following segments that hold no separator leaves only names.
pub proof fn lemma_resolve_leaves_names(segs: Seq<Seq<char>>)
    requires
        forall|i: int| 0 <= i < segs.len() ==> !(#[trigger] segs[i]).contains('/'),
    ensures
        forall|j: int| 0 <= j < resolve(segs).len() ==> is_name(#[trigger] resolve(segs)[j]),
    decreases segs.len(),
{
    if segs.len() > 0 {
        let init = segs.drop_last();
        assert forall|i: int| 0 <= i < init.len() implies !(#[trigger] init[i]).contains('/') by {
            assert(init[i] == segs[i]);
        }
        lemma_resolve_leaves_names(init);
        let seg = segs.last();
        assert(!seg.contains('/')) by {
            assert(seg == segs[segs.len() - 1]);
        }
        assert forall|j: int| 0 <= j < resolve(segs).len() implies is_name(
            #[trigger] resolve(segs)[j],
        ) by {
            if j < resolve(init).len() {
                assert(resolve(segs)[j] == resolve(init)[j]);
            }
        }
    }
}

/// A path never leads above the root nor through anything but names: each of
/// its components is non-empty, is neither `.` nor `..`, and holds no
/// separator.
pub proof fn lemma_components_are_names(path: Seq<char>)
    ensures
        forall|j: int| 0 <= j < components(path).len() ==> is_name(#[trigger] components(path)[j]),
{
    lemma_segments_hold_no_separator(path);
    lemma_resolve_leaves_names(segments(path));
}

/// A separator and a text without separators add one segment.
proof fn lemma_segments_extend(s: Seq<char>, seg: Seq<char>)
    requires
        !seg.contains('/'),
    ensures
        segments(s + seq!['/'] + seg) == segments(s).push(seg),
    decreases seg.len(),
{
    let whole = s + seq!['/'] + seg;
    if seg.len() == 0 {
        assert(whole.drop_last() =~= s);
        assert(seg =~= Seq::empty());
    } else {
        let shorter = seg.drop_last();
        assert(!shorter.contains('/')) by {
            if shorter.contains('/') {
                let j = choose|j: int| 0 <= j < shorter.len() && shorter[j] == '/';
                assert(seg[j] == '/');
            }
        }
        lemma_segments_extend(s, shorter);
        assert(whole.drop_last() =~= s + seq!['/'] + shorter);
        assert(seg.last() != '/') by {
            assert(seg[seg.len() - 1] == seg.last());
        }
        assert(whole.last() == seg.last());
        assert(segments(s).push(shorter).drop_last() =~= segments(s));
        assert(shorter.push(seg.last()) =~= seg);
    }
}

/// A text without separators is its own single segment.
proof fn lemma_segments_of_name(seg: Seq<char>)
    requires
        !seg.contains('/'),
    ensures
        segments(seg) == seq![seg],
    decreases seg.len(),
{
    if seg.len() == 0 {
        assert(seg =~= Seq::empty());
    } else {
        let shorter = seg.drop_last();
        assert(!shorter.contains('/')) by {
            if shorter.contains('/') {
                let j = choose|j: int| 0 <= j < shorter.len() && shorter[j] == '/';
                assert(seg[j] == '/');
            }
        }
        lemma_segments_of_name(shorter);
        assert(seg.last() != '/') by {
            assert(seg[seg.len() - 1] == seg.last());
        }
        assert(shorter.push(seg.last()) =~= seg);
        assert(seq![shorter].drop_last().push(seg) =~= seq![seg]);
    }
}

/// Splitting undoes joining: texts without separators, joined, fall apart
/// into themselves again, also behind a leading separator.
proof fn lemma_segments_of_joined(names: Seq<Seq<char>>)
    requires
        names.len() >= 1,
        forall|i: int| 0 <= i < names.len() ==> !(#[trigger] names[i]).contains('/'),
    ensures
        segments(joined(names)) == names,
        segments(seq!['/'] + joined(names)) == seq![Seq::<char>::empty()] + names,
    decreases names.len(),
{
    let empty = Seq::<char>::empty();
    if names.len() == 1 {
        lemma_segments_of_name(names[0]);
        assert(seq![names[0]] =~= names);
        lemma_segments_extend(empty, names[0]);
        assert(empty + seq!['/'] + names[0] =~= seq!['/'] + joined(names));
        assert(segments(empty).push(names[0]) =~= seq![empty] + names);
    } else {
        let init = names.drop_last();
        lemma_segments_of_joined(init);
        lemma_segments_extend(joined(init), names.last());
        assert(init.push(names.last()) =~= names);
        lemma_segments_extend(seq!['/'] + joined(init), names.last());
        assert(seq!['/'] + joined(init) + seq!['/'] + names.last() =~= seq!['/'] + joined(names));
        assert((seq![empty] + init).push(names.last()) =~= seq![empty] + names);
    }
}

/// Names stay where they are: following names adds each of them.
proof fn lemma_resolve_of_names(lead: Seq<Seq<char>>, names: Seq<Seq<char>>)
    requires
        forall|i: int| 0 <= i < names.len() ==> is_name(#[trigger] names[i]),
    ensures
        resolve(lead + names) == resolve(lead) + names,
    decreases names.len(),
{
    if names.len() == 0 {
        assert(lead + names =~= lead);
        assert(resolve(lead) + names =~= resolve(lead));
    } else {
        lemma_resolve_of_names(lead, names.drop_last());
        assert((lead + names).drop_last() =~= lead + names.drop_last());
        assert((lead + names).last() == names.last());
        assert(is_name(names[names.len() - 1]));
        assert((resolve(lead) + names.drop_last()).push(names.last()) =~= resolve(lead) + names);
    }
}

/// The first character of joined names is that of the first name.
proof fn lemma_joined_starts_with_first(names: Seq<Seq<char>>)
    requires
        names.len() >= 1,
        names[0].len() >= 1,
    ensures
        joined(names).len() >= 1,
        joined(names)[0] == names[0][0],
    decreases names.len(),
{
    if names.len() > 1 {
        lemma_joined_starts_with_first(names.drop_last());
    }
}

/// One or two empty segments lead nowhere.
proof fn lemma_resolve_of_nothing()
    ensures
        resolve(seq![Seq::<char>::empty()]) == Seq::<Seq<char>>::empty(),
        resolve(seq![Seq::<char>::empty(), Seq::<char>::empty()]) == Seq::<Seq<char>>::empty(),
{
    let empty = Seq::<char>::empty();
    let one = seq![empty];
    let two = seq![empty, empty];
    assert(one.drop_last() =~= Seq::<Seq<char>>::empty());
    assert(one.last() == empty);
    assert(resolve(one.drop_last()) =~= Seq::<Seq<char>>::empty());
    assert(resolve(one) =~= Seq::<Seq<char>>::empty());
    assert(two.drop_last() =~= one);
    assert(two.last() == empty);
    assert(resolve(two) =~= Seq::<Seq<char>>::empty());
}

/// Names joined by separators are a path through exactly these names, with
/// or without a leading separator.
pub proof fn lemma_components_of_joined(names: Seq<Seq<char>>)
    requires
        forall|i: int| 0 <= i < names.len() ==> is_name(#[trigger] names[i]),
    ensures
        components(joined(names)) == names,
        components(seq!['/'] + joined(names)) == names,
{
    let empty = Seq::<char>::empty();
    lemma_resolve_of_nothing();
    if names.len() == 0 {
        assert(segments(empty) == seq![empty]);
        assert(seq!['/'] + joined(names) =~= seq!['/']);
        assert(seq!['/'].drop_last() =~= empty);
        assert(segments(seq!['/']) =~= seq![empty, empty]);
        assert(names =~= Seq::<Seq<char>>::empty());
    } else {
        assert forall|i: int| 0 <= i < names.len() implies !(#[trigger] names[i]).contains(
            '/',
        ) by {
            assert(is_name(names[i]));
        }
        lemma_segments_of_joined(names);
        lemma_resolve_of_names(Seq::empty(), names);
        assert(Seq::<Seq<char>>::empty() + names =~= names);
        lemma_resolve_of_names(seq![empty], names);
    }
}

/// Normalizing changes nothing that matters and nothing twice: the shortest
/// spelling of a path has the components of the path, is rooted exactly when
/// the path is, and is its own shortest spelling.
pub proof fn lemma_normalized_is_stable(path: Seq<char>)
    ensures
        components(normalized(path)) == components(path),
        is_rooted(normalized(path)) == is_rooted(path),
        normalized(normalized(path)) == normalized(path),
{
    let names = components(path);
    lemma_components_are_names(path);
    lemma_components_of_joined(names);
    if names.len() > 0 {
        lemma_joined_starts_with_first(names);
        assert(is_name(names[0]));
        assert(names[0][0] != '/') by {
            if names[0][0] == '/' {
                assert(names[0].contains('/'));
            }
        }
    }
}

} // verus!
