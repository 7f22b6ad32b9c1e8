//! What is written for a target: the container alone where the target's
//! name asks for it, the runtime image followed by the container otherwise.

use vstd::prelude::*;
use vstd::string::StringExecFns;
use crate::container::{framed, lemma_locate_framed, locate_spec, PAYLOAD_LIMIT};
use crate::error::DataError;
use crate::path::{components, normalize_path, normalized, path_components};

verus! {

/// Position of the last dot of `name`, or -1 where it has none.
pub open spec fn last_dot(name: Seq<char>) -> int
    decreases name.len(),
{
    if name.len() == 0 {
        -1
    } else if name.last() == '.' {
        name.len() - 1
    } else {
        last_dot(name.drop_last())
    }
}

/// The extension of a file name: what follows its last dot, unless the name
/// has no dot or only one that it begins with.
pub open spec fn name_extension(name: Seq<char>) -> Option<Seq<char>> {
    if last_dot(name) <= 0 {
        None
    } else {
        Some(name.skip(last_dot(name) + 1))
    }
}

/// The extension of the file that `path` leads to, if it leads to one and
/// that has one.
pub open spec fn extension(path: Seq<char>) -> Option<Seq<char>> {
    if components(path).len() == 0 {
        None
    } else {
        name_extension(components(path).last())
    }
}

/// The two forms of what is built.
#[derive(Clone, Copy, Debug, PartialEq, Eq, Structural)]
pub enum BuildMode {
    /// The container alone, to lie beside a runtime that is distributed on
    /// its own.
    Payload,
    /// The runtime image with the container behind it: a program that runs.
    Executable,
}

/// The form that a target asks for: the container alone where its
/// extension is `neu`, the program otherwise.
pub open spec fn build_mode_spec(target: Seq<char>) -> BuildMode {
    if extension(target) == Some("neu"@) {
        BuildMode::Payload
    } else {
        BuildMode::Executable
    }
}

/// Where the target is written: its shortest spelling, with `.exe` behind
/// it where the platform wants an extension on programs and the target
/// names a file without one.
pub open spec fn platform_target_spec(target: Seq<char>, wants_extension: bool) -> Seq<char> {
    if wants_extension && components(target).len() > 0 && extension(target) is None {
        normalized(target) + ".exe"@
    } else {
        normalized(target)
    }
}

/// What is written: the container alone, or the runtime image with the
/// container behind it.
pub open spec fn artifact_spec(mode: BuildMode, runtime: Seq<u8>, container: Seq<u8>) -> Seq<u8> {
    match mode {
        BuildMode::Payload => container,
        BuildMode::Executable => runtime + container,
    }
}

/// Position of the last dot of `name`, if it has one.
fn find_last_dot(name: &str) -> (at: Option<usize>)
    ensures
        match at {
            Some(i) => i == last_dot(name@) && i < name@.len(),
            None => last_dot(name@) == -1,
        },
{
    let n = name.unicode_len();
    let mut i = n;
    assert(name@.take(n as int) =~= name@);
    while i > 0
        invariant
            i <= n == name@.len(),
            last_dot(name@) == last_dot(name@.take(i as int)),
        decreases i,
    {
        assert(name@.take(i as int).drop_last() =~= name@.take(i - 1));
        if name.get_char(i - 1) == '.' {
            return Some(i - 1);
        }
        i -= 1;
    }
    None
}

/// The form that `target` asks for.
pub fn build_mode(target: &str) -> (mode: BuildMode)
    ensures
        mode == build_mode_spec(target@),
{
    let names = path_components(target);
    if names.len() == 0 {
        return BuildMode::Executable;
    }
    let name = names[names.len() - 1].as_str();
    assert(name@ == components(target@).last());
    proof {
        reveal_strlit("neu");
    }
    match find_last_dot(name) {
        Some(dot) => {
            let n = name.unicode_len();
            if dot > 0 && n - dot == 4 && name.get_char(dot + 1) == 'n' && name.get_char(dot + 2)
                == 'e' && name.get_char(dot + 3) == 'u' {
                assert(name@.skip(dot + 1) =~= "neu"@);
                BuildMode::Payload
            } else {
                assert(dot > 0 ==> name@.skip(dot + 1) != "neu"@) by {
                    let tail = name@.skip(dot + 1);
                    if dot > 0 && tail == "neu"@ {
                        assert(tail.len() == 3);
                        assert(tail[0] == name@[dot + 1] && tail[1] == name@[dot + 2] && tail[2]
                            == name@[dot + 3]);
                    }
                }
                BuildMode::Executable
            }
        },
        None => BuildMode::Executable,
    }
}

/// Where `target` is written on a platform that wants an extension on
/// programs (`wants_extension`) or does not.
pub fn platform_target(target: &str, wants_extension: bool) -> (out: String)
    ensures
        out@ == platform_target_spec(target@, wants_extension),
{
    let mut out = normalize_path(target);
    if wants_extension {
        let names = path_components(target);
        if names.len() > 0 {
            let name = names[names.len() - 1].as_str();
            assert(name@ == components(target@).last());
            let bare = match find_last_dot(name) {
                Some(dot) => dot == 0,
                None => true,
            };
            if bare {
                out.append(".exe");
            }
        }
    }
    out
}

/// Puts together what is written for a target of the given form.
pub fn artifact(mode: BuildMode, runtime: &[u8], container: &[u8]) -> (out: Vec<u8>)
    ensures
        out@ == artifact_spec(mode, runtime@, container@),
{
    let mut out: Vec<u8> = Vec::new();
    match mode {
        BuildMode::Payload => {},
        BuildMode::Executable => {
            out.extend_from_slice(runtime);
        },
    }
    out.extend_from_slice(container);
    assert(out@ =~= artifact_spec(mode, runtime@, container@));
    out
}

/// Whatever is written, the payload is found in it again: in either form,
/// and behind any runtime image, the container of a payload within the
/// limit is located and yields that payload.
pub proof fn lemma_artifact_yields_payload(mode: BuildMode, runtime: Seq<u8>, payload: Seq<u8>)
    requires
        payload.len() <= PAYLOAD_LIMIT,
    ensures
        locate_spec(artifact_spec(mode, runtime, framed(payload))) == Ok::<Seq<u8>, DataError>(
            payload,
        ),
{
    match mode {
        BuildMode::Payload => {
            lemma_locate_framed(Seq::empty(), payload);
            assert(Seq::<u8>::empty() + framed(payload) =~= framed(payload));
        },
        BuildMode::Executable => {
            lemma_locate_framed(runtime, payload);
        },
    }
}

} // verus!
