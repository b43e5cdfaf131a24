//! What the native Windows USB path decides: which device interface path
//! names the printer and which pipe receives the data. Its failures are
//! `SendError::UsbNotFound` and `SendError::NoOutPipe`. Walking the device
//! interfaces and writing to the pipe are left to the operating system calls
//! of the application.

use vstd::prelude::*;
use crate::text::{hex4_lower, push_hex4_lower, push_str};

verus! {

/// The fragment by which a device interface path names a USB device:
/// `vid_XXXX&pid_YYYY` with lower-case hexadecimal identifiers.
pub open spec fn device_path_target(vendor_id: u16, product_id: u16) -> Seq<char> {
    "vid_"@ + hex4_lower(vendor_id) + "&pid_"@ + hex4_lower(product_id)
}

/// The fragment by which a device interface path names the device.
pub fn usb_path_target(vendor_id: u16, product_id: u16) -> (r: String)
    ensures
        r@ == device_path_target(vendor_id, product_id),
{
    let mut s = String::from_str("vid_");
    push_hex4_lower(&mut s, vendor_id);
    push_str(&mut s, "&pid_");
    push_hex4_lower(&mut s, product_id);
    s
}

/// Whether `needle` stands in `hay` from position `i` on.
pub open spec fn occurs_at(hay: Seq<char>, needle: Seq<char>, i: int) -> bool {
    &&& 0 <= i
    &&& i + needle.len() <= hay.len()
    &&& hay.subrange(i, i + needle.len()) == needle
}

/// Whether `needle` stands somewhere in `hay` (what `str::contains` with a
/// string pattern finds).
pub open spec fn occurs_in(hay: Seq<char>, needle: Seq<char>) -> bool {
    exists|i: int| occurs_at(hay, needle, i)
}

fn matches_at(hay: &str, needle: &str, i: usize, n: usize, m: usize) -> (r: bool)
    requires
        n == hay@.len(),
        m == needle@.len(),
        i + m <= n,
    ensures
        r == occurs_at(hay@, needle@, i as int),
{
    let mut k: usize = 0;
    while k < m
        invariant
            k <= m,
            n == hay@.len(),
            m == needle@.len(),
            i + m <= n,
            forall|j: int| 0 <= j < k ==> hay@[i + j] == needle@[j],
        decreases m - k,
    {
        if hay.get_char(i + k) != needle.get_char(k) {
            proof {
                assert(hay@.subrange(i as int, i + m)[k as int] != needle@[k as int]);
            }
            return false;
        }
        k = k + 1;
    }
    proof {
        assert(hay@.subrange(i as int, i + m) =~= needle@);
    }
    true
}

/// Whether `needle` stands somewhere in `hay`.
pub fn contains_text(hay: &str, needle: &str) -> (r: bool)
    ensures
        r == occurs_in(hay@, needle@),
{
    let n = hay.unicode_len();
    let m = needle.unicode_len();
    if m > n {
        proof {
            assert forall|j: int| !occurs_at(hay@, needle@, j) by {}
        }
        return false;
    }
    let last = n - m;
    let mut i: usize = 0;
    while i < last
        invariant
            i <= last,
            last == n - m,
            m <= n,
            n == hay@.len(),
            m == needle@.len(),
            forall|j: int| 0 <= j < i ==> !occurs_at(hay@, needle@, j),
        decreases last - i,
    {
        if matches_at(hay, needle, i, n, m) {
            return true;
        }
        i = i + 1;
    }
    if matches_at(hay, needle, last, n, m) {
        return true;
    }
    proof {
        assert forall|j: int| !occurs_at(hay@, needle@, j) by {
            if 0 <= j < i {
            }
        }
    }
    false
}

/// What `str::to_lowercase` gives for a text. It depends on the characters
/// alone (the Unicode `Lowercase` mapping, not a locale).
pub uninterp spec fn unicode_lowercase(s: Seq<char>) -> Seq<char>;

/// Lower-cases a text with `str::to_lowercase`; the contract names the
/// result.
#[verifier::external_body]
fn to_lowercase(s: &str) -> (r: String)
    ensures
        r@ == unicode_lowercase(s@),
{
    s.to_lowercase()
}

/// Whether an already lower-cased device interface path names the device.
pub fn path_names_device(lowered: &str, vendor_id: u16, product_id: u16) -> (r: bool)
    ensures
        r == occurs_in(lowered@, device_path_target(vendor_id, product_id)),
{
    let target = usb_path_target(vendor_id, product_id);
    contains_text(lowered, target.as_str())
}

/// Whether a device interface path names the device, whatever the case of
/// its letters.
pub fn device_path_matches(path: &str, vendor_id: u16, product_id: u16) -> (r: bool)
    ensures
        r == occurs_in(unicode_lowercase(path@), device_path_target(vendor_id, product_id)),
{
    let lowered = to_lowercase(path);
    path_names_device(lowered.as_str(), vendor_id, product_id)
}

/// Whether the path at position `k` of `paths` names the device.
pub open spec fn path_at_names(paths: Seq<String>, k: int, vendor_id: u16, product_id: u16) -> bool {
    occurs_in(unicode_lowercase(paths[k]@), device_path_target(vendor_id, product_id))
}

/// The device interface path to open among those of one interface class, in
/// enumeration order: the first that names the device.
pub fn find_device_path(paths: &Vec<String>, vendor_id: u16, product_id: u16) -> (r: Option<usize>)
    ensures
        r is None <==> forall|j: int|
            0 <= j < paths@.len() ==> !#[trigger] path_at_names(paths@, j, vendor_id, product_id),
        r matches Some(k) ==> k < paths@.len() && path_at_names(paths@, k as int, vendor_id, product_id)
            && forall|j: int|
            0 <= j < k ==> !#[trigger] path_at_names(paths@, j, vendor_id, product_id),
{
    let mut i: usize = 0;
    while i < paths.len()
        invariant
            i <= paths@.len(),
            forall|j: int|
                0 <= j < i ==> !#[trigger] path_at_names(paths@, j, vendor_id, product_id),
        decreases paths.len() - i,
    {
        if device_path_matches(paths[i].as_str(), vendor_id, product_id) {
            proof {
                assert(path_at_names(paths@, i as int, vendor_id, product_id));
            }
            return Some(i);
        }
        i = i + 1;
    }
    None
}

/// Whether a pipe identifier denotes an OUT pipe: its direction bit (bit 7)
/// is clear.
pub open spec fn is_out_pipe(id: u8) -> bool {
    id < 128
}

/// Whether the pipe query at position `j` answered with an OUT pipe.
pub open spec fn out_pipe_at(pipes: Seq<Option<u8>>, j: int) -> bool {
    pipes[j] matches Some(id) && is_out_pipe(id)
}

/// The pipe that receives the data: `pipes` holds, for each pipe index in
/// order, the identifier that the query of that index answered (`None` when
/// the query failed), and the first OUT pipe is chosen.
pub fn first_out_pipe(pipes: &Vec<Option<u8>>) -> (r: Option<u8>)
    ensures
        r is None <==> forall|j: int| 0 <= j < pipes@.len() ==> !#[trigger] out_pipe_at(pipes@, j),
        r matches Some(id) ==> exists|k: int|
            0 <= k < pipes@.len() && pipes@[k] == Some(id) && #[trigger] out_pipe_at(pipes@, k)
                && forall|j: int| 0 <= j < k ==> !#[trigger] out_pipe_at(pipes@, j),
{
    let mut i: usize = 0;
    while i < pipes.len()
        invariant
            i <= pipes@.len(),
            forall|j: int| 0 <= j < i ==> !#[trigger] out_pipe_at(pipes@, j),
        decreases pipes.len() - i,
    {
        if let Some(id) = pipes[i] {
            if id < 128 {
                proof {
                    assert(out_pipe_at(pipes@, i as int));
                }
                return Some(id);
            }
        }
        i = i + 1;
    }
    None
}

} // verus!
