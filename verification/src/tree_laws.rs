//! What holds of trees and of the walks through them.

use vstd::prelude::*;
use crate::codec::{
    brotli_compressed, brotli_decompressed, media_type_of, stored, FileView, BROTLI_QUALITY,
    BROTLI_WINDOW, CODEC_BUFFER_SIZE,
};
use crate::data::{open_spec, respond_spec};
use crate::error::DataError;
use crate::path::{
    is_name, joined, lemma_components_of_joined, lemma_normalized_is_stable, normalized,
};
use crate::tree::{
    built, empty_dir, first_named, lookup, names_not_empty, taken_name, with_entries, with_entry,
    DirView, SourceEntry,
};

verus! {

/// Whether `dir` holds `file` at the end of the path `names`: the last name
/// is that of the file, the names before it are those of the directories
/// that lead to it.
pub open spec fn holds_at(dir: DirView, names: Seq<Seq<char>>, file: FileView) -> bool
    decreases names.len(),
{
    if names.len() == 0 {
        false
    } else if names.len() == 1 {
        exists|i: int| 0 <= i < dir.files.len() && #[trigger] dir.files[i] == (names[0], file)
    } else {
        exists|j: int|
            0 <= j < dir.dirs.len() && (#[trigger] dir.dirs[j]).0 == names[0] && holds_at(
                dir.dirs[j].1,
                names.drop_first(),
                file,
            )
    }
}

/// What is found under a name is one of the entries.
pub proof fn lemma_first_named_is_an_entry<T>(entries: Seq<(Seq<char>, T)>, name: Seq<char>)
    ensures
        first_named(entries, name) matches Some(found) ==> exists|i: int|
            0 <= i < entries.len() && #[trigger] entries[i] == (name, found),
        first_named(entries, name) is None ==> forall|i: int|
            0 <= i < entries.len() ==> (#[trigger] entries[i]).0 != name,
    decreases entries.len(),
{
    if entries.len() > 0 {
        let rest = entries.drop_first();
        lemma_first_named_is_an_entry(rest, name);
        if entries[0].0 != name {
            if let Some(found) = first_named(rest, name) {
                let i = choose|i: int| 0 <= i < rest.len() && #[trigger] rest[i] == (name, found);
                assert(entries[i + 1] == (name, found));
            } else {
                assert forall|i: int| 0 <= i < entries.len() implies (#[trigger] entries[i]).0
                    != name by {
                    if i > 0 {
                        assert(rest[i - 1] == entries[i]);
                    }
                }
            }
        } else {
            assert(entries[0] == (name, entries[0].1));
        }
    }
}

/// A walk never leaves the tree: the file that names lead to is a file that
/// the tree holds, at the end of the path made of the names that the walk
/// used up.
pub proof fn lemma_walk_stays_inside(dir: DirView, names: Seq<Seq<char>>)
    ensures
        lookup(dir, names) matches Some(file) ==> exists|k: int|
            1 <= k <= names.len() && holds_at(dir, #[trigger] names.take(k), file),
    decreases names.len(),
{
    if names.len() > 0 {
        if let Some(file) = first_named(dir.files, names[0]) {
            lemma_first_named_is_an_entry(dir.files, names[0]);
            assert(names.take(1).len() == 1 && names.take(1)[0] == names[0]);
            assert(holds_at(dir, names.take(1), file));
        } else if let Some(sub) = first_named(dir.dirs, names[0]) {
            let rest = names.drop_first();
            lemma_first_named_is_an_entry(dir.dirs, names[0]);
            lemma_walk_stays_inside(sub, rest);
            if let Some(file) = lookup(sub, rest) {
                let k = choose|k: int|
                    1 <= k <= rest.len() && holds_at(sub, #[trigger] rest.take(k), file);
                let upto = names.take(k + 1);
                assert(upto.drop_first() =~= rest.take(k));
                assert(upto[0] == names[0]);
                let j = choose|j: int|
                    0 <= j < dir.dirs.len() && #[trigger] dir.dirs[j] == (names[0], sub);
                assert(dir.dirs[j].0 == names[0]);
                assert(holds_at(dir.dirs[j].1, upto.drop_first(), file));
                assert(holds_at(dir, upto, file));
            }
        }
    }
}

/// The name under which `entry` is taken in, if it is taken in.
pub open spec fn entry_name(entry: SourceEntry) -> Option<Seq<char>> {
    match entry {
        SourceEntry::File { name, .. } => taken_name(name),
        SourceEntry::Directory { name, .. } => taken_name(name),
        SourceEntry::Other => None,
    }
}

/// Whether `entry` is a regular file called `name` that holds `raw`.
pub open spec fn is_file_entry(entry: SourceEntry, name: Seq<char>, raw: Seq<u8>) -> bool {
    entry matches SourceEntry::File { name: n, content } && taken_name(n) == Some(name)
        && content@ == raw
}

/// Whether `entry` is a directory called `name` with the entries `inner`.
pub open spec fn is_dir_entry(
    entry: SourceEntry,
    name: Seq<char>,
    inner: Seq<SourceEntry>,
) -> bool {
    entry matches SourceEntry::Directory { name: n, entries } && taken_name(n) == Some(name)
        && entries@ == inner
}

/// Whether no two of `entries` are taken in under one name.
pub open spec fn names_differ(entries: Seq<SourceEntry>) -> bool {
    forall|i: int, j: int|
        0 <= i < j < entries.len() && entry_name(#[trigger] entries[i]) is Some ==> entry_name(
            entries[i],
        ) != entry_name(#[trigger] entries[j])
}

/// Whether names are unique within each directory of a source, as they are
/// in any directory of a file system.
pub open spec fn source_well_named(entries: Seq<SourceEntry>) -> bool
    decreases entries,
{
    &&& names_differ(entries)
    &&& forall|i: int|
        0 <= i < entries.len() ==> match #[trigger] entries[i] {
            SourceEntry::Directory { name, entries: inner } => taken_name(name) is Some
                ==> source_well_named(inner@),
            _ => true,
        }
}

/// Whether the source with the given entries has, at the end of the path
/// `names`, a regular file that holds `raw`.
pub open spec fn source_holds(
    entries: Seq<SourceEntry>,
    names: Seq<Seq<char>>,
    raw: Seq<u8>,
) -> bool
    decreases names.len(),
{
    if names.len() == 0 {
        false
    } else if names.len() == 1 {
        exists|i: int| 0 <= i < entries.len() && is_file_entry(#[trigger] entries[i], names[0], raw)
    } else {
        exists|i: int, inner: Seq<SourceEntry>|
            0 <= i < entries.len() && #[trigger] is_dir_entry(entries[i], names[0], inner)
                && source_holds(inner, names.drop_first(), raw)
    }
}

/// Taking in entries keeps every name non-empty: what becomes of a tree
/// without empty names has none.
pub proof fn lemma_entries_keep_names(dir: DirView, entries: Seq<SourceEntry>)
    requires
        names_not_empty(dir),
    ensures
        with_entries(dir, entries) matches Ok(out) ==> names_not_empty(out),
    decreases entries,
{
    if entries.len() > 0 {
        lemma_entries_keep_names(dir, entries.drop_last());
        if let Ok(sofar) = with_entries(dir, entries.drop_last()) {
            if let SourceEntry::Directory { name, entries: inner } = entries.last() {
                lemma_entries_keep_names(empty_dir(), inner@);
            }
            if let Ok(out) = with_entry(sofar, entries.last()) {
                assert forall|i: int| 0 <= i < out.files.len() implies (#[trigger] out.files[
                    i
                ]).0.len() > 0 by {
                    if i < sofar.files.len() {
                        assert(out.files[i] == sofar.files[i]);
                    }
                }
                assert forall|j: int| 0 <= j < out.dirs.len() implies (#[trigger] out.dirs[
                    j
                ]).0.len() > 0 && names_not_empty(out.dirs[j].1) by {
                    if j < sofar.dirs.len() {
                        assert(out.dirs[j] == sofar.dirs[j]);
                    }
                }
            }
        }
    }
}

/// An entry added at the end is found under its name unless an earlier one
/// is.
pub proof fn lemma_first_named_push<T>(
    entries: Seq<(Seq<char>, T)>,
    added: (Seq<char>, T),
    name: Seq<char>,
)
    ensures
        first_named(entries.push(added), name) == match first_named(entries, name) {
            Some(found) => Some(found),
            None => if added.0 == name {
                Some(added.1)
            } else {
                None
            },
        },
    decreases entries.len(),
{
    let grown = entries.push(added);
    if entries.len() == 0 {
        assert(grown[0] == added);
        assert(grown.drop_first() =~= Seq::empty());
        assert(first_named(grown.drop_first(), name) is None);
    } else {
        assert(grown[0] == entries[0]);
        assert(grown.drop_first() =~= entries.drop_first().push(added));
        lemma_first_named_push(entries.drop_first(), added, name);
    }
}

/// In the tree built from entries with different names, each name leads to
/// what was built from the entry of that name, and to nothing else.
pub proof fn lemma_built_by_name(entries: Seq<SourceEntry>, out: DirView)
    requires
        built(entries) == Ok::<DirView, DataError>(out),
        names_differ(entries),
    ensures
        forall|i: int, name: Seq<char>, raw: Seq<u8>|
            0 <= i < entries.len() && #[trigger] is_file_entry(entries[i], name, raw) ==> {
                &&& stored(name, raw) matches Ok(file)
                &&& first_named(out.files, name) == Some(file)
                &&& first_named(out.dirs, name) is None
            },
        forall|i: int, name: Seq<char>, inner: Seq<SourceEntry>|
            0 <= i < entries.len() && #[trigger] is_dir_entry(entries[i], name, inner) ==> {
                &&& built(inner) matches Ok(sub)
                &&& first_named(out.dirs, name) == Some(sub)
                &&& first_named(out.files, name) is None
            },
        forall|name: Seq<char>|
            (#[trigger] first_named(out.files, name)) is Some || (#[trigger] first_named(
                out.dirs,
                name,
            )) is Some ==> exists|i: int|
                0 <= i < entries.len() && entry_name(#[trigger] entries[i]) == Some(name),
    decreases entries.len(),
{
    if entries.len() > 0 {
        let init = entries.drop_last();
        let last = entries.last();
        let sofar = built(init)->Ok_0;
        assert(built(init) is Ok);
        assert(with_entry(sofar, last) == Ok::<DirView, DataError>(out));
        assert(names_differ(init)) by {
            assert forall|i: int, j: int|
                0 <= i < j < init.len() && entry_name(#[trigger] init[i]) is Some implies
                entry_name(init[i]) != entry_name(#[trigger] init[j]) by {
                assert(init[i] == entries[i] && init[j] == entries[j]);
            }
        }
        lemma_built_by_name(init, sofar);
        let n = entries.len() - 1;
        // The name of the last entry leads nowhere in what was built before.
        if let Some(last_name) = entry_name(last) {
            assert(first_named(sofar.files, last_name) is None && first_named(
                sofar.dirs,
                last_name,
            ) is None) by {
                if first_named(sofar.files, last_name) is Some || first_named(
                    sofar.dirs,
                    last_name,
                ) is Some {
                    let i = choose|i: int|
                        0 <= i < init.len() && entry_name(#[trigger] init[i]) == Some(last_name);
                    assert(init[i] == entries[i] && last == entries[n]);
                }
            }
        }
        assert forall|name: Seq<char>|
            (#[trigger] first_named(out.files, name)) is Some || (#[trigger] first_named(
                out.dirs,
                name,
            )) is Some implies exists|i: int|
            0 <= i < entries.len() && entry_name(#[trigger] entries[i]) == Some(name) by {
            match last {
                SourceEntry::File { name: Some(n_last), content } => {
                    let file = stored(n_last@, content@)->Ok_0;
                    lemma_first_named_push(sofar.files, (n_last@, file), name);
                },
                SourceEntry::Directory { name: Some(n_last), entries: inner } => {
                    lemma_first_named_push(sofar.dirs, (n_last@, built(inner@)->Ok_0), name);
                },
                _ => {},
            }
            if first_named(sofar.files, name) is Some || first_named(sofar.dirs, name) is Some {
                let i = choose|i: int|
                    0 <= i < init.len() && entry_name(#[trigger] init[i]) == Some(name);
                assert(init[i] == entries[i]);
            } else {
                assert(entry_name(entries[n]) == Some(name));
            }
        }
        assert forall|i: int, name: Seq<char>, raw: Seq<u8>|
            0 <= i < entries.len() && #[trigger] is_file_entry(entries[i], name, raw) implies {
            &&& stored(name, raw) matches Ok(file)
            &&& first_named(out.files, name) == Some(file)
            &&& first_named(out.dirs, name) is None
        } by {
            match last {
                SourceEntry::File { name: Some(n_last), content } => {
                    let file = stored(n_last@, content@)->Ok_0;
                    lemma_first_named_push(sofar.files, (n_last@, file), name);
                },
                SourceEntry::Directory { name: Some(n_last), entries: inner } => {
                    lemma_first_named_push(sofar.dirs, (n_last@, built(inner@)->Ok_0), name);
                },
                _ => {},
            }
            if i < n {
                assert(init[i] == entries[i]);
                assert(is_file_entry(init[i], name, raw));
                assert(entry_name(entries[i]) == Some(name));
                assert(entry_name(entries[i]) != entry_name(entries[n]));
            }
        }
        assert forall|i: int, name: Seq<char>, inner: Seq<SourceEntry>|
            0 <= i < entries.len() && #[trigger] is_dir_entry(entries[i], name, inner) implies {
            &&& built(inner) matches Ok(sub)
            &&& first_named(out.dirs, name) == Some(sub)
            &&& first_named(out.files, name) is None
        } by {
            match last {
                SourceEntry::File { name: Some(n_last), content } => {
                    let file = stored(n_last@, content@)->Ok_0;
                    lemma_first_named_push(sofar.files, (n_last@, file), name);
                },
                SourceEntry::Directory { name: Some(n_last), entries: inner_last } => {
                    lemma_first_named_push(sofar.dirs, (n_last@, built(inner_last@)->Ok_0), name);
                },
                _ => {},
            }
            if i < n {
                assert(init[i] == entries[i]);
                assert(is_dir_entry(init[i], name, inner));
                assert(entry_name(entries[i]) == Some(name));
                assert(entry_name(entries[i]) != entry_name(entries[n]));
            }
        }
    }
}

/// The tree built from a source holds every file of the source where the
/// source has it: the names that lead to a file in the source lead, in the
/// tree, to what was stored for that file.
pub proof fn lemma_built_tree_holds_every_file(
    entries: Seq<SourceEntry>,
    names: Seq<Seq<char>>,
    raw: Seq<u8>,
    out: DirView,
)
    requires
        built(entries) == Ok::<DirView, DataError>(out),
        source_well_named(entries),
        source_holds(entries, names, raw),
    ensures
        stored(names.last(), raw) matches Ok(file) && lookup(out, names) == Some(file),
    decreases names.len(),
{
    lemma_built_by_name(entries, out);
    if names.len() == 1 {
        let i = choose|i: int|
            0 <= i < entries.len() && is_file_entry(#[trigger] entries[i], names[0], raw);
        assert(is_file_entry(entries[i], names[0], raw));
    } else {
        let (i, inner) = choose|i: int, inner: Seq<SourceEntry>|
            0 <= i < entries.len() && #[trigger] is_dir_entry(entries[i], names[0], inner)
                && source_holds(inner, names.drop_first(), raw);
        assert(is_dir_entry(entries[i], names[0], inner));
        let sub = built(inner)->Ok_0;
        assert(source_well_named(inner)) by {
            assert(entries[i] is Directory);
        }
        lemma_built_tree_holds_every_file(inner, names.drop_first(), raw, sub);
        assert(names.drop_first().last() == names.last());
    }
}

/// Every file of a source can be opened in the tree built from it: where
/// names are unique within each directory of the source, the path made of
/// the names that lead to a file, with or without a leading separator,
/// opens what was stored for that file: its bytes as the compressor gave
/// them, and the media type guessed from its name.
pub proof fn lemma_open_finds_every_file(
    entries: Seq<SourceEntry>,
    names: Seq<Seq<char>>,
    raw: Seq<u8>,
    out: DirView,
)
    requires
        built(entries) == Ok::<DirView, DataError>(out),
        source_well_named(entries),
        source_holds(entries, names, raw),
        forall|i: int| 0 <= i < names.len() ==> is_name(#[trigger] names[i]),
    ensures
        open_spec(out, joined(names)) == stored(names.last(), raw),
        open_spec(out, seq!['/'] + joined(names)) == stored(names.last(), raw),
        stored(names.last(), raw) is Ok,
{
    lemma_built_tree_holds_every_file(entries, names, raw, out);
    lemma_components_of_joined(names);
}

/// Every file of a source is answered for: a request for the path of a
/// file gets the media type guessed from the file's name and, for its
/// bytes, what the decoder restores from the stream that the encoder made of
/// them.
pub proof fn lemma_every_file_is_answered_for(
    entries: Seq<SourceEntry>,
    names: Seq<Seq<char>>,
    raw: Seq<u8>,
    out: DirView,
    spa: bool,
)
    requires
        built(entries) == Ok::<DirView, DataError>(out),
        source_well_named(entries),
        source_holds(entries, names, raw),
        forall|i: int| 0 <= i < names.len() ==> is_name(#[trigger] names[i]),
    ensures
        brotli_compressed(raw, CODEC_BUFFER_SIZE, BROTLI_QUALITY, BROTLI_WINDOW) matches Some(
            stream,
        ) && respond_spec(out, spa, joined(names)) == match brotli_decompressed(
            stream,
            CODEC_BUFFER_SIZE,
        ) {
            Some(body) => Ok::<(Seq<char>, Seq<u8>), DataError>((media_type_of(names.last()), body)),
            None => Err(DataError::DecompressionFailed),
        },
{
    lemma_open_finds_every_file(entries, names, raw, out);
}

/// Spellings of one path open the same: a path and its shortest spelling
/// lead to the same file or to none.
pub proof fn lemma_open_ignores_spelling(dir: DirView, path: Seq<char>)
    ensures
        open_spec(dir, normalized(path)) == open_spec(dir, path),
{
    lemma_normalized_is_stable(path);
}

} // verus!
