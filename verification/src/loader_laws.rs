//! What holds of every course of loading.

use crate::ast::{Item, Span};
use crate::loader;
use crate::loader::{Fail, FileV, FrameV, LoaderV, NextV};
use vstd::prelude::*;

verus! {

/// Paths and numbers of files that are loaded.
pub open spec fn file_keys(files: Seq<FileV>) -> Seq<(Seq<char>, u32)> {
    files.map_values(|f: FileV| (f.path, f.id))
}

/// Paths and numbers of files that are being loaded.
pub open spec fn frame_keys(stack: Seq<FrameV>) -> Seq<(Seq<char>, u32)> {
    stack.map_values(|f: FrameV| (f.path, f.id))
}

impl LoaderV {
    /// Paths and numbers of all files met so far.
    pub open spec fn keys(self) -> Seq<(Seq<char>, u32)> {
        file_keys(self.loaded) + frame_keys(self.stack)
    }

    /// No file is met twice: paths differ, and so do numbers.
    pub open spec fn wf(self) -> bool {
        &&& forall|i: int, j: int|
            0 <= i < j < self.keys().len() ==> (#[trigger] self.keys()[i]).0 != (
            #[trigger] self.keys()[j]).0 && self.keys()[i].1 != self.keys()[j].1
        &&& forall|i: int| 0 <= i < self.keys().len() ==> (#[trigger] self.keys()[i]).1 < self.next_id
    }

    /// How one state comes out of another by completing files: innermost
    /// first, and each behind the files that were complete before.
    pub open spec fn completes(self, after: LoaderV) -> bool {
        &&& after.stack.len() <= self.stack.len()
        &&& frame_keys(after.stack) == frame_keys(self.stack).take(after.stack.len() as int)
        &&& file_keys(after.loaded) == file_keys(self.loaded) + frame_keys(self.stack).skip(
            after.stack.len() as int,
        ).reverse()
        &&& self.loaded.is_prefix_of(after.loaded)
        &&& after.next_id == self.next_id
        &&& after.sources == self.sources
    }
}

proof fn arrive_keeps(s: LoaderV, id: u32)
    requires
        s.arrive(id) is Ok,
    ensures
        frame_keys(s.arrive(id)->Ok_0.stack) == frame_keys(s.stack),
        s.arrive(id)->Ok_0.stack.len() == s.stack.len(),
        s.arrive(id)->Ok_0.loaded == s.loaded,
        s.arrive(id)->Ok_0.next_id == s.next_id,
        s.arrive(id)->Ok_0.sources == s.sources,
{
    if s.stack.len() > 0 {
        assert(frame_keys(s.arrive(id)->Ok_0.stack) =~= frame_keys(s.stack));
    }
}

/// Files are completed from the innermost outwards, so what a file imports is
/// complete before it.
pub proof fn inner_files_complete_first(s: LoaderV)
    requires
        s.advance() is Ok,
    ensures
        s.completes(s.advance()->Ok_0.0),
    decreases s.stack.len(), s.stack.last().todo.len(),
{
    let t = s.advance()->Ok_0.0;
    if s.stack.len() == 0 {
        assert(frame_keys(t.stack) =~= frame_keys(s.stack).take(0));
        assert(file_keys(t.loaded) =~= file_keys(s.loaded) + frame_keys(s.stack).skip(
            0,
        ).reverse());
    } else {
        let top = s.stack.last();
        let below = s.stack.drop_last();
        let n = s.stack.len() as int;
        if top.todo.len() == 0 {
            let file = FileV { path: top.path, id: top.id, items: top.defs };
            let mid = LoaderV { stack: below, loaded: s.loaded.push(file), ..s };
            arrive_keeps(mid, top.id);
            let next = mid.arrive(top.id)->Ok_0;
            inner_files_complete_first(next);
            let k = t.stack.len() as int;
            assert(frame_keys(below) =~= frame_keys(s.stack).drop_last());
            assert(frame_keys(t.stack) =~= frame_keys(s.stack).take(k));
            assert(file_keys(mid.loaded) =~= file_keys(s.loaded).push((top.path, top.id)));
            assert(frame_keys(s.stack).skip(k) =~= frame_keys(below).skip(k).push(
                (top.path, top.id),
            ));
            assert(frame_keys(s.stack).skip(k).reverse() =~= seq![(top.path, top.id)]
                + frame_keys(below).skip(k).reverse());
            assert(file_keys(t.loaded) =~= file_keys(s.loaded) + frame_keys(s.stack).skip(
                k,
            ).reverse());
            assert(s.loaded.is_prefix_of(t.loaded)) by {
                assert(t.loaded.take(mid.loaded.len() as int) =~= mid.loaded);
                assert(t.loaded.take(s.loaded.len() as int) =~= s.loaded) by {
                    assert forall|i: int| 0 <= i < s.loaded.len() implies t.loaded[i]
                        == s.loaded[i] by {
                        assert(mid.loaded[i] == s.loaded[i]);
                        assert(t.loaded.take(mid.loaded.len() as int)[i] == t.loaded[i]);
                    }
                }
            }
        } else {
            let item = top.todo.last();
            let rest = top.todo.drop_last();
            match item {
                Item::Import { .. } | Item::FromImport { .. } => {
                    assert(frame_keys(t.stack) =~= frame_keys(s.stack));
                    assert(frame_keys(s.stack).take(n) =~= frame_keys(s.stack));
                    assert(file_keys(t.loaded) =~= file_keys(s.loaded) + frame_keys(s.stack).skip(
                        n,
                    ).reverse());
                },
                _ => {
                    let mid = LoaderV {
                        stack: below.push(
                            FrameV { todo: rest, defs: top.defs.push(item), ..top },
                        ),
                        ..s
                    };
                    assert(mid.stack.last().todo.len() < top.todo.len());
                    assert(frame_keys(mid.stack) =~= frame_keys(s.stack));
                    inner_files_complete_first(mid);
                },
            }
        }
    }
}

proof fn completes_keeps_wf(s: LoaderV, t: LoaderV)
    requires
        s.wf(),
        s.completes(t),
    ensures
        t.wf(),
{
    let a = file_keys(s.loaded);
    let b = frame_keys(s.stack);
    let k = t.stack.len() as int;
    let n = a.len() as int;
    let m = b.len() as int;
    // where the key at a place came from
    let from = |i: int|
        if i < n {
            i
        } else if i < n + m - k {
            n + m - 1 - (i - n)
        } else {
            n + (i - (n + m - k))
        };
    assert(t.keys().len() == s.keys().len());
    assert forall|i: int| 0 <= i < t.keys().len() implies 0 <= from(i) < s.keys().len()
        && #[trigger] t.keys()[i] == s.keys()[from(i)] by {
        if i < n {
        } else if i < n + m - k {
            assert(t.keys()[i] == b.skip(k).reverse()[i - n]);
            assert(b.skip(k).reverse()[i - n] == b[m - 1 - (i - n)]);
        } else {
            assert(t.keys()[i] == b.take(k)[i - (n + m - k)]);
        }
    }
    assert forall|i: int, j: int| 0 <= i < j < t.keys().len() implies (#[trigger] t.keys()[i]).0 != (
    #[trigger] t.keys()[j]).0 && t.keys()[i].1 != t.keys()[j].1 by {
        assert(from(i) != from(j));
        let x = s.keys()[from(i)];
        let y = s.keys()[from(j)];
        if from(i) < from(j) {
            assert(x.0 != y.0 && x.1 != y.1);
        } else {
            assert(y.0 != x.0 && y.1 != x.1);
        }
    }
}

proof fn first_file(files: Seq<FileV>, path: Seq<char>, i: nat)
    ensures
        match loader::file_at(files, path, i) {
            Some(k) => i <= k < files.len() && files[k].path == path,
            None => forall|j: int| i <= j < files.len() ==> (#[trigger] files[j]).path != path,
        },
    decreases files.len() - i,
{
    if i < files.len() && files[i as int].path != path {
        first_file(files, path, i + 1);
    }
}

proof fn first_frame(stack: Seq<FrameV>, path: Seq<char>, i: nat)
    ensures
        match loader::frame_at(stack, path, i) {
            Some(k) => i <= k < stack.len() && stack[k].path == path,
            None => forall|j: int| i <= j < stack.len() ==> (#[trigger] stack[j]).path != path,
        },
    decreases stack.len() - i,
{
    if i < stack.len() && stack[i as int].path != path {
        first_frame(stack, path, i + 1);
    }
}

/// No file is loaded twice and no two files share a number, however imports
/// lead to them.
pub proof fn opening_keeps_files_apart(s: LoaderV, path: Seq<char>, span: Span)
    requires
        s.wf(),
        s.next_id < u32::MAX,
        s.opened(path, span) is Ok,
    ensures
        s.opened(path, span)->Ok_0.0.wf(),
{
    let t = s.opened(path, span)->Ok_0.0;
    first_file(s.loaded, path, 0);
    first_frame(s.stack, path, 0);
    match loader::file_at(s.loaded, path, 0) {
        Some(k) => {
            let id = s.loaded[k].id;
            arrive_keeps(s, id);
            let mid = s.arrive(id)->Ok_0;
            assert(mid.keys() == s.keys());
            assert(mid.wf());
            inner_files_complete_first(mid);
            completes_keeps_wf(mid, t);
        },
        None => {
            assert(frame_keys(t.stack) =~= frame_keys(s.stack).push((path, s.next_id)));
            assert(t.keys() =~= s.keys().push((path, s.next_id)));
            assert(s.next_id.wrapping_add(1) == s.next_id + 1);
            assert forall|i: int| 0 <= i < s.keys().len() implies (#[trigger] s.keys()[i]).0
                != path by {
                if i < s.loaded.len() {
                    assert(s.keys()[i].0 == s.loaded[i].path);
                } else {
                    assert(s.keys()[i].0 == s.stack[i - s.loaded.len()].path);
                }
            }
            assert forall|i: int, j: int| 0 <= i < j < t.keys().len() implies (
            #[trigger] t.keys()[i]).0 != (#[trigger] t.keys()[j]).0 && t.keys()[i].1
                != t.keys()[j].1 by {
                assert(t.keys()[i] == s.keys()[i]);
                if j < s.keys().len() {
                    assert(t.keys()[j] == s.keys()[j]);
                }
            }
            assert forall|i: int| 0 <= i < t.keys().len() implies (#[trigger] t.keys()[i]).1
                < t.next_id by {
                if i < s.keys().len() {
                    assert(t.keys()[i] == s.keys()[i]);
                }
            }
        },
    }
}

/// Going through the items of a file meets no file twice either.
pub proof fn parsing_keeps_files_apart(s: LoaderV, items: Seq<Item>)
    requires
        s.wf(),
        s.parsed(items) is Ok,
    ensures
        s.parsed(items)->Ok_0.0.wf(),
{
    if s.stack.len() > 0 {
        let mid = LoaderV {
            stack: s.stack.update(
                s.stack.len() - 1,
                FrameV { todo: items.reverse(), ..s.stack.last() },
            ),
            ..s
        };
        assert(frame_keys(mid.stack) =~= frame_keys(s.stack));
        assert(mid.keys() == s.keys());
        assert(mid.wf());
        inner_files_complete_first(mid);
        completes_keeps_wf(mid, s.parsed(items)->Ok_0.0);
    }
}

/// The file that loading began with is complete last.
pub proof fn entry_comes_last(s: LoaderV)
    requires
        s.stack.len() > 0,
        s.advance() is Ok,
        s.advance()->Ok_0.1 == NextV::Done,
    ensures
        s.advance()->Ok_0.0.loaded.len() > 0,
        s.advance()->Ok_0.0.loaded.last().path == s.stack[0].path,
        s.advance()->Ok_0.0.loaded.last().id == s.stack[0].id,
{
    inner_files_complete_first(s);
    done_when_empty(s);
    let t = s.advance()->Ok_0.0;
    let b = frame_keys(s.stack);
    assert(b.skip(0) =~= b);
    assert(file_keys(t.loaded).last() == b.reverse().last());
    assert(b.reverse().last() == b[0]);
    assert(file_keys(t.loaded).last() == (t.loaded.last().path, t.loaded.last().id));
}

proof fn done_when_empty(s: LoaderV)
    requires
        s.advance() is Ok,
        s.advance()->Ok_0.1 == NextV::Done,
    ensures
        s.advance()->Ok_0.0.stack.len() == 0,
    decreases s.stack.len(), s.stack.last().todo.len(),
{
    if s.stack.len() > 0 {
        let top = s.stack.last();
        let below = s.stack.drop_last();
        if top.todo.len() == 0 {
            let file = FileV { path: top.path, id: top.id, items: top.defs };
            let mid = LoaderV { stack: below, loaded: s.loaded.push(file), ..s };
            arrive_keeps(mid, top.id);
            done_when_empty(mid.arrive(top.id)->Ok_0);
        } else {
            let item = top.todo.last();
            let rest = top.todo.drop_last();
            match item {
                Item::Import { .. } | Item::FromImport { .. } => {},
                _ => {
                    let mid = LoaderV {
                        stack: below.push(
                            FrameV { todo: rest, defs: top.defs.push(item), ..top },
                        ),
                        ..s
                    };
                    assert(mid.stack.last().todo.len() < top.todo.len());
                    done_when_empty(mid);
                },
            }
        }
    }
}

/// Importing a file that is being loaded is an error, and the cycle it reports
/// leads from that file back to it.
pub proof fn cycles_are_errors(s: LoaderV, k: int, span: Span)
    requires
        s.wf(),
        0 <= k < s.stack.len(),
    ensures
        s.opened(s.stack[k].path, span) matches Err(Fail::CircularImport { cycle, span: at })
            && at == span && cycle.len() == s.stack.len() - k + 1 && cycle.first()
            == s.stack[k].path && cycle.last() == s.stack[k].path,
{
    let path = s.stack[k].path;
    let n = s.loaded.len() as int;
    first_file(s.loaded, path, 0);
    first_frame(s.stack, path, 0);
    assert(s.keys()[n + k].0 == path);
    assert forall|i: int| 0 <= i < n implies (#[trigger] s.loaded[i]).path != path by {
        assert(s.keys()[i].0 == s.loaded[i].path);
    }
    match loader::frame_at(s.stack, path, 0) {
        Some(j) => {
            assert(s.keys()[n + j].0 == s.stack[j].path);
            if j < k {
                assert(s.keys()[n + j].0 != s.keys()[n + k].0);
            } else if k < j {
                assert(s.keys()[n + k].0 != s.keys()[n + j].0);
            }
            let cycle = s.stack.skip(j).map_values(|f: FrameV| f.path).push(path);
            assert(cycle.first() == s.stack[j].path);
        },
        None => {},
    }
}

/// A file that is loaded is used again: nothing is read for it.
pub proof fn loaded_files_are_shared(s: LoaderV, k: int, span: Span)
    requires
        s.wf(),
        0 <= k < s.loaded.len(),
    ensures
        s.opened(s.loaded[k].path, span) == match s.arrive(s.loaded[k].id) {
            Ok(t) => t.advance(),
            Err(x) => Err(x),
        },
{
    let path = s.loaded[k].path;
    first_file(s.loaded, path, 0);
    match loader::file_at(s.loaded, path, 0) {
        Some(j) => {
            assert(s.keys()[j].0 == s.loaded[j].path);
            assert(s.keys()[k].0 == s.loaded[k].path);
            if j < k {
                assert(s.keys()[j].0 != s.keys()[k].0);
            } else if k < j {
                assert(s.keys()[k].0 != s.keys()[j].0);
            }
        },
        None => {},
    }
}

} // verus!
