//! The hooks that run after a recipe was installed.

use crate::definition::build_style::{entries_with, key_index, lemma_key_index};
use crate::engine::build_state::{BuildState, BuildStateView};
use crate::engine::hooks::{CollectElf, StripBinaries};
use crate::engine::{lemma_operations_push, Command, CommandView, Operation, OperationView};
use crate::text::{extend_strings, push_string, str_equal};
use crate::utils::elf::{describes, is_elf, ElfHeader};
use vstd::prelude::*;
use vstd::slice::slice_subrange;

verus! {

/// The eight bytes that begin every `ar` archive: `!<arch>` and a line feed.
pub open spec fn archive_magic() -> Seq<u8> {
    seq![0x21u8, 0x3Cu8, 0x61u8, 0x72u8, 0x63u8, 0x68u8, 0x3Eu8, 0x0Au8]
}

/// A file whose first bytes are `head` is an `ar` archive.
pub open spec fn is_archive(head: Seq<u8>) -> bool {
    head.len() >= 8 && head.subrange(0, 8) == archive_magic()
}

/// The state after the file at `path` with the first bytes `head` was looked
/// at: an archive is listed; else an ELF file is entered with its header
/// `header`, in the place of what was entered for the path before; any other
/// file changes nothing.
pub open spec fn collected(
    state: BuildStateView,
    path: Seq<char>,
    head: Seq<u8>,
    header: ElfHeader,
) -> BuildStateView {
    if is_archive(head) {
        BuildStateView { archives: state.archives.push(path), ..state }
    } else if is_elf(head) {
        BuildStateView { elf_headers: entries_with(state.elf_headers, path, header), ..state }
    } else {
        state
    }
}

/// The paths of the entries of `headers` whose file is for some machine and
/// of the object type `kind`, in order.
pub open spec fn picked(headers: Seq<(Seq<char>, ElfHeader)>, kind: u16) -> Seq<Seq<char>>
    decreases headers.len(),
{
    if headers.len() == 0 {
        Seq::empty()
    } else {
        let before = picked(headers.drop_last(), kind);
        let (path, header) = headers.last();
        if header.machine != 0 && header.object_type == kind {
            before.push(path)
        } else {
            before
        }
    }
}

/// The command that strips `files` in the way `mode`, where there are any
/// files. Its exit status is not looked at.
pub open spec fn strip_op(mode: Seq<Seq<char>>, files: Seq<Seq<char>>) -> Seq<OperationView> {
    if files.len() > 0 {
        seq![
            OperationView::Run {
                command: CommandView { program: "strip"@, args: mode + files, current_dir: None },
                failure: None,
            },
        ]
    } else {
        Seq::empty()
    }
}

/// The work that strips what `state` lists, unless the recipe says that
/// nothing is stripped: the executables, then the shared objects of what is
/// not needed, then the archives of their debugging symbols.
pub open spec fn strip_plan(state: BuildStateView) -> Seq<OperationView> {
    if state.recipe.strip == Some(false) {
        Seq::empty()
    } else {
        strip_op(Seq::empty(), picked(state.elf_headers, 2)) + strip_op(
            seq!["--strip-unneeded"@],
            picked(state.elf_headers, 3),
        ) + strip_op(seq!["--strip-debug"@], state.archives)
    }
}

fn insert_header(headers: &mut Vec<(String, ElfHeader)>, path: String, header: ElfHeader)
    ensures
        final(headers).deep_view() == entries_with(old(headers).deep_view(), path@, header),
{
    let ghost before = headers.deep_view();
    let mut i: usize = 0;
    while i < headers.len()
        invariant
            i <= headers.len(),
            before == headers.deep_view(),
            before == old(headers).deep_view(),
            forall|j: int| 0 <= j < i ==> (#[trigger] before[j]).0 != path@,
        decreases headers.len() - i,
    {
        if str_equal(headers[i].0.as_str(), path.as_str()) {
            proof {
                lemma_key_index(before, path@);
                let k = key_index(before, path@);
                assert(before[i as int].0 == path@);
                if k > i {
                    assert(before[i as int].0 != path@);
                }
                if k < i {
                    assert(before[k].0 != path@);
                }
            }
            headers.set(i, (path, header));
            assert(headers.deep_view() =~= before.update(i as int, (path@, header)));
            return ;
        }
        i += 1;
    }
    proof {
        lemma_key_index(before, path@);
        let k = key_index(before, path@);
        if k < before.len() {
            assert(before[k].0 != path@);
        }
    }
    headers.push((path, header));
    assert(headers.deep_view() =~= before.push((path@, header)));
}

impl CollectElf {
    /// How many bytes are read from the start of an installed file to tell
    /// what it is.
    pub const HEAD_LEN: usize = 56;

    /// Whether a directory entry is looked at: regular files are, symbolic
    /// links are not.
    pub fn wants(is_file: bool, is_symlink: bool) -> (r: bool)
        ensures
            r == (is_file && !is_symlink),
    {
        is_file && !is_symlink
    }

    /// Looks at the installed file at `path`, whose first bytes are `head`,
    /// and lists it in `state` where it is an archive or an ELF file. The
    /// bytes are looked at from the start for either.
    pub fn inspect(state: &mut BuildState, path: String, head: &[u8])
        ensures
            !is_archive(head@) && is_elf(head@) ==> exists|header: ElfHeader|
                describes(header, head@) && #[trigger] collected(
                    old(state)@,
                    path@,
                    head@,
                    header,
                ) == final(state)@,
            !(!is_archive(head@) && is_elf(head@)) ==> forall|header: ElfHeader|
                #[trigger] collected(old(state)@, path@, head@, header) == final(state)@,
    {
        if head.len() >= 8 {
            let first = slice_subrange(head, 0, 8);
            if first[0] == 0x21 && first[1] == 0x3C && first[2] == 0x61 && first[3] == 0x72
                && first[4] == 0x63 && first[5] == 0x68 && first[6] == 0x3E && first[7] == 0x0A {
                assert(head@.subrange(0, 8) =~= archive_magic());
                push_string(&mut state.archives, path);
                return ;
            }
            proof {
                let part = head@.subrange(0, 8);
                if part == archive_magic() {
                    assert(part[0] == 0x21 && part[1] == 0x3C && part[2] == 0x61 && part[3] == 0x72
                        && part[4] == 0x63 && part[5] == 0x68 && part[6] == 0x3E && part[7]
                        == 0x0A);
                }
            }
        }
        match ElfHeader::parse(head) {
            Some(header) => {
                insert_header(&mut state.elf_headers, path, header);
                assert(collected(old(state)@, path@, head@, header) == state@);
            },
            None => {},
        }
    }
}

/// The paths of the entries of `headers` whose file is for some machine and
/// of the object type `kind`.
fn pick(headers: &Vec<(String, ElfHeader)>, kind: u16) -> (r: Vec<String>)
    ensures
        r.deep_view() == picked(headers.deep_view(), kind),
{
    let mut r: Vec<String> = Vec::new();
    assert(r.deep_view() =~= Seq::empty());
    assert(headers.deep_view().take(0) =~= Seq::empty());
    let mut i: usize = 0;
    while i < headers.len()
        invariant
            i <= headers.len(),
            r.deep_view() == picked(headers.deep_view().take(i as int), kind),
        decreases headers.len() - i,
    {
        proof {
            let next = headers.deep_view().take(i + 1);
            assert(next.drop_last() =~= headers.deep_view().take(i as int));
            assert(next.last() == (headers@[i as int].0@, headers@[i as int].1));
        }
        let header = &headers[i].1;
        if header.machine != 0 && header.object_type == kind {
            push_string(&mut r, headers[i].0.clone());
        }
        i += 1;
    }
    proof {
        assert(headers.deep_view().take(i as int) =~= headers.deep_view());
    }
    r
}

/// Puts the command that strips `files` in the way `mode` after `ops`.
fn push_strip(ops: &mut Vec<Operation>, mode: Option<&str>, files: &Vec<String>)
    ensures
        final(ops).deep_view() == old(ops).deep_view() + strip_op(
            match mode {
                Some(m) => seq![m@],
                None => Seq::empty(),
            },
            files.deep_view(),
        ),
{
    if files.len() > 0 {
        let mut args: Vec<String> = Vec::new();
        assert(args.deep_view() =~= Seq::empty());
        match mode {
            Some(m) => {
                push_string(&mut args, String::from_str(m));
                assert(args.deep_view() =~= seq![m@]);
            },
            None => {},
        }
        extend_strings(&mut args, files);
        let ghost before = *ops;
        let op = Operation::Run {
            command: Command { program: String::from_str("strip"), args, current_dir: None },
            failure: None,
        };
        ops.push(op);
        proof {
            lemma_operations_push(before, *ops, op);
            assert(ops.deep_view() =~= before.deep_view() + seq![op@]);
        }
    } else {
        assert(ops.deep_view() + Seq::<OperationView>::empty() =~= ops.deep_view());
    }
}

impl StripBinaries {
    /// The work that strips what `state` lists.
    pub fn run(state: &BuildState) -> (r: Vec<Operation>)
        ensures
            r.deep_view() == strip_plan(state@),
    {
        let mut ops: Vec<Operation> = Vec::new();
        assert(ops.deep_view() =~= Seq::empty());
        let strip = match state.recipe.options.strip {
            Some(wanted) => wanted,
            None => true,
        };
        if !strip {
            return ops;
        }
        let binaries = pick(&state.elf_headers, 2);
        let libraries = pick(&state.elf_headers, 3);
        push_strip(&mut ops, None, &binaries);
        push_strip(&mut ops, Some("--strip-unneeded"), &libraries);
        push_strip(&mut ops, Some("--strip-debug"), &state.archives);
        assert(ops.deep_view() =~= strip_plan(state@));
        ops
    }
}

/// Where a recipe says that nothing is stripped, nothing is stripped; where
/// it says nothing of stripping, all that was collected is.
pub proof fn lemma_strip_gating(state: BuildStateView)
    ensures
        state.recipe.strip == Some(false) ==> strip_plan(state).len() == 0,
        state.recipe.strip is None ==> strip_plan(state) == strip_plan(
            BuildStateView {
                recipe: crate::definition::RecipeView { strip: Some(true), ..state.recipe },
                ..state
            },
        ),
        state.recipe.strip != Some(false) && state.archives.len() > 0 ==> strip_plan(
            state,
        ).len() > 0,
{
}

} // verus!
