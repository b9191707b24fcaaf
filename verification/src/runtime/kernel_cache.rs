//! Reuse of compiled kernels. Kernel numbers differ between programs, so that
//! sources are compared with the number in the function's name masked.

use crate::text;
use crate::text::{decimal_of, same_text};
use vstd::hash_map::StringHashMap;
use vstd::prelude::*;

verus! {

/// First occurrence of `needle` in `s`, from `i` on.
pub open spec fn first_match(s: Seq<char>, needle: Seq<char>, i: nat) -> Option<int>
    decreases s.len() + 1 - i,
{
    if i + needle.len() > s.len() {
        None
    } else if s.subrange(i as int, (i + needle.len()) as int) == needle {
        Some(i as int)
    } else {
        first_match(s, needle, i + 1)
    }
}

/// The name of a kernel's function.
pub open spec fn kernel_name(id: u64) -> Seq<char> {
    "malus_kernel_"@ + text::decimal(id as nat)
}

/// A kernel's source with its number masked at its first occurrence.
pub open spec fn masked(id: u64, source: Seq<char>) -> Seq<char> {
    let needle = kernel_name(id);
    match first_match(source, needle, 0) {
        Some(i) => source.take(i) + "malus_kernel_X"@ + source.skip(i + needle.len()),
        None => source,
    }
}

/// A kernel's source with its number masked at its first occurrence.
pub fn normalize_kernel_source_for_cache(id: u64, source: &str) -> (r: String)
    ensures
        r@ == masked(id, source@),
{
    let needle: String = "malus_kernel_".to_string().concat(decimal_of(id).as_str());
    let n: usize = source.unicode_len();
    let m: usize = needle.as_str().unicode_len();
    assert(needle@ == kernel_name(id));
    if m > n {
        return source.to_string();
    }
    let mut i: usize = 0;
    while i <= n - m
        invariant
            i <= n - m + 1,
            m <= n,
            n == source@.len(),
            m == needle@.len(),
            needle@ == kernel_name(id),
            first_match(source@, needle@, 0) == first_match(source@, needle@, i as nat),
        decreases n - i,
    {
        if same_text(source.substring_char(i, i + m), needle.as_str()) {
            let head = source.substring_char(0, i);
            let tail = source.substring_char(i + m, n);
            proof {
                assert(source@.subrange(0, i as int) =~= source@.take(i as int));
                assert(source@.subrange((i + m) as int, n as int) =~= source@.skip(
                    (i + m) as int,
                ));
            }
            return head.to_string().concat("malus_kernel_X").concat(tail);
        }
        if i == n - m {
            assert(first_match(source@, needle@, (i + 1) as nat) is None);
            return source.to_string();
        }
        i = i + 1;
    }
    source.to_string()
}

/// Masking hides which number a kernel has: the same text around different
/// numbers is masked to the same source, where no earlier text is mistaken
/// for the name.
pub proof fn masking_hides_number(a: u64, b: u64, head: Seq<char>, tail: Seq<char>)
    requires
        first_match(head + kernel_name(a) + tail, kernel_name(a), 0) == Some(head.len() as int),
        first_match(head + kernel_name(b) + tail, kernel_name(b), 0) == Some(head.len() as int),
    ensures
        masked(a, head + kernel_name(a) + tail) == masked(b, head + kernel_name(b) + tail),
{
    let x = head + kernel_name(a) + tail;
    let y = head + kernel_name(b) + tail;
    let h = head.len() as int;
    assert(x.take(h) =~= head);
    assert(y.take(h) =~= head);
    assert(x.skip(h + kernel_name(a).len()) =~= tail);
    assert(y.skip(h + kernel_name(b).len()) =~= tail);
}

/// Sources that have been compiled, each with the kernel number under which
/// it was compiled first.
pub struct KernelCache {
    pub by_source: StringHashMap<u64>,
}

impl KernelCache {
    pub fn new() -> (r: Self)
        ensures
            r.by_source@ == Map::<Seq<char>, u64>::empty(),
    {
        KernelCache { by_source: StringHashMap::new() }
    }

    /// The number under which the same kernel was compiled before. Otherwise
    /// none, and the kernel is noted as compiled under its own number.
    pub fn reuse(&mut self, id: u64, source: &str) -> (r: Option<u64>)
        ensures
            ({
                let known = old(self).by_source@;
                let key = masked(id, source@);
                if known.contains_key(key) {
                    r == Some(known[key]) && final(self).by_source@ == known
                } else {
                    r is None && final(self).by_source@ == known.insert(key, id)
                }
            }),
    {
        let key = normalize_kernel_source_for_cache(id, source);
        match self.by_source.get(key.as_str()) {
            Some(first) => Some(*first),
            None => {
                self.by_source.insert(key, id);
                None
            },
        }
    }
}

} // verus!
