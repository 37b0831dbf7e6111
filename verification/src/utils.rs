//! Helpers of the engine: the ELF header reader and the directory walker.

pub mod elf;

use crate::text::push_string;
use vstd::prelude::*;

verus! {

/// A walk through directories, depth first. The walker holds the paths of the
/// directories that are open, the innermost last; whoever drives the walk
/// reads the entries of the innermost one and tells the walker what it found.
#[derive(Debug, PartialEq, Eq)]
pub struct FileWalker {
    pub omit_directories: bool,
    pub stack: Vec<String>,
}

pub struct FileWalkerView {
    pub omit_directories: bool,
    pub stack: Seq<Seq<char>>,
}

impl View for FileWalker {
    type V = FileWalkerView;

    open spec fn view(&self) -> FileWalkerView {
        FileWalkerView {
            omit_directories: self.omit_directories,
            stack: self.stack.deep_view(),
        }
    }
}

/// What reading the innermost open directory gave.
#[derive(Debug, PartialEq, Eq)]
pub enum WalkEvent {
    /// The directory has no more entries.
    Exhausted,
    /// The next entry of the directory: its path, and whether it is a
    /// directory itself.
    Entry { path: String, is_dir: bool },
}

pub enum WalkEventView {
    Exhausted,
    Entry { path: Seq<char>, is_dir: bool },
}

impl View for WalkEvent {
    type V = WalkEventView;

    open spec fn view(&self) -> WalkEventView {
        match self {
            WalkEvent::Exhausted => WalkEventView::Exhausted,
            WalkEvent::Entry { path, is_dir } => WalkEventView::Entry {
                path: path@,
                is_dir: *is_dir,
            },
        }
    }
}

impl FileWalkerView {
    /// The walker after `event`: a directory that is exhausted is closed, and
    /// a directory that is found is opened.
    pub open spec fn after(self, event: WalkEventView) -> FileWalkerView {
        match event {
            WalkEventView::Exhausted => FileWalkerView {
                stack: self.stack.drop_last(),
                ..self
            },
            WalkEventView::Entry { path, is_dir } => if is_dir {
                FileWalkerView { stack: self.stack.push(path), ..self }
            } else {
                self
            },
        }
    }

    /// The entry that the walk hands out at `event`: every file, and every
    /// directory unless directories are left out.
    pub open spec fn handed_out(self, event: WalkEventView) -> Option<Seq<char>> {
        match event {
            WalkEventView::Exhausted => None,
            WalkEventView::Entry { path, is_dir } => if is_dir && self.omit_directories {
                None
            } else {
                Some(path)
            },
        }
    }
}

impl FileWalker {
    /// A walk with no directory to walk yet.
    pub fn empty(with_directories: bool) -> (r: FileWalker)
        ensures
            r@ == (FileWalkerView {
                omit_directories: !with_directories,
                stack: Seq::empty(),
            }),
    {
        let r = FileWalker { omit_directories: !with_directories, stack: Vec::new() };
        assert(r.stack.deep_view() =~= Seq::empty());
        r
    }

    /// Opens the directory `path`: it is walked before what was open.
    pub fn push(&mut self, path: String)
        ensures
            final(self)@ == (FileWalkerView { stack: old(self)@.stack.push(path@), ..old(self)@ }),
    {
        push_string(&mut self.stack, path);
    }

    /// A walk through the directory `path` that leaves directories out.
    pub fn new(path: String) -> (r: FileWalker)
        ensures
            r@ == (FileWalkerView { omit_directories: true, stack: seq![path@] }),
    {
        let mut r = FileWalker { omit_directories: true, stack: Vec::new() };
        assert(r.stack.deep_view() =~= Seq::empty());
        push_string(&mut r.stack, path);
        assert(r.stack.deep_view() =~= seq![path@]);
        r
    }

    /// The directory whose next entry is to be read: the innermost open one.
    /// The walk is over where none is open.
    pub fn next(&self) -> (r: Option<&str>)
        ensures
            match r {
                Some(dir) => self@.stack.len() > 0 && dir@ == self@.stack.last(),
                None => self@.stack.len() == 0,
            },
    {
        if self.stack.len() == 0 {
            None
        } else {
            Some(self.stack[self.stack.len() - 1].as_str())
        }
    }

    /// Takes in what reading the innermost open directory gave, and gives
    /// the entry that the walk hands out, if it hands one out.
    pub fn advance(&mut self, event: WalkEvent) -> (r: Option<String>)
        requires
            old(self)@.stack.len() > 0,
        ensures
            final(self)@ == old(self)@.after(event@),
            r.deep_view() == old(self)@.handed_out(event@),
    {
        match event {
            WalkEvent::Exhausted => {
                let ghost before = self.stack;
                self.stack.pop();
                assert(self.stack.deep_view() =~= before.deep_view().drop_last());
                None
            },
            WalkEvent::Entry { path, is_dir } => {
                if !is_dir {
                    return Some(path);
                }
                push_string(&mut self.stack, path.clone());
                if !self.omit_directories {
                    Some(path)
                } else {
                    None
                }
            },
        }
    }
}

} // verus!
