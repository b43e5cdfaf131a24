//! The list of USB printers shown to the user: identifiers formatted as the
//! bridge prints them, duplicates dropped, known point-of-sale vendors first.

use vstd::prelude::*;
use crate::types::clone_opt_string;
use crate::text::{
    format_hex4_upper, hex4_upper, law_hex4_reads_back, parse_u16_radix16, parse_u16_radix16_str,
    str_equal,
};

verus! {

/// A USB printer found on this machine. Identifiers are four upper-case
/// hexadecimal digits.
#[derive(Debug)]
pub struct UsbDeviceInfo {
    pub vendor_id: String,
    pub product_id: String,
    pub manufacturer: Option<String>,
    pub product: Option<String>,
    pub serial_number: Option<String>,
}

impl Clone for UsbDeviceInfo {
    fn clone(&self) -> (r: Self)
        ensures
            r == *self,
    {
        UsbDeviceInfo {
            vendor_id: self.vendor_id.clone(),
            product_id: self.product_id.clone(),
            manufacturer: clone_opt_string(&self.manufacturer),
            product: clone_opt_string(&self.product),
            serial_number: clone_opt_string(&self.serial_number),
        }
    }
}


/// The characters of a [`UsbDeviceInfo`].
pub struct UsbDeviceView {
    pub vendor_id: Seq<char>,
    pub product_id: Seq<char>,
    pub manufacturer: Option<Seq<char>>,
    pub product: Option<Seq<char>>,
    pub serial_number: Option<Seq<char>>,
}

/// The optional text as characters.
pub open spec fn opt_chars(s: Option<String>) -> Option<Seq<char>> {
    match s {
        Some(v) => Some(v@),
        None => None,
    }
}

impl View for UsbDeviceInfo {
    type V = UsbDeviceView;

    open spec fn view(&self) -> UsbDeviceView {
        UsbDeviceView {
            vendor_id: self.vendor_id@,
            product_id: self.product_id@,
            manufacturer: opt_chars(self.manufacturer),
            product: opt_chars(self.product),
            serial_number: opt_chars(self.serial_number),
        }
    }
}

/// A USB device as the enumeration read it: numeric identifiers and the
/// descriptor strings that could be read.
#[derive(Debug)]
pub struct RawUsbDevice {
    pub vendor_id: u16,
    pub product_id: u16,
    pub manufacturer: Option<String>,
    pub product: Option<String>,
    pub serial_number: Option<String>,
}

/// A descriptor string is shown only when it was read and is not empty.
pub open spec fn shown_text(s: Option<String>) -> Option<Seq<char>> {
    match s {
        Some(v) => if v@.len() > 0 {
            Some(v@)
        } else {
            None
        },
        None => None,
    }
}

/// How a device is listed.
pub open spec fn listed(d: RawUsbDevice) -> UsbDeviceView {
    UsbDeviceView {
        vendor_id: hex4_upper(d.vendor_id),
        product_id: hex4_upper(d.product_id),
        manufacturer: shown_text(d.manufacturer),
        product: shown_text(d.product),
        serial_number: shown_text(d.serial_number),
    }
}

/// Whether two entries have the same vendor and product identifiers.
pub open spec fn same_ids(a: UsbDeviceView, b: UsbDeviceView) -> bool {
    a.vendor_id == b.vendor_id && a.product_id == b.product_id
}

/// Whether `s` has an entry with the identifiers of `e`.
pub open spec fn has_ids(s: Seq<UsbDeviceView>, e: UsbDeviceView) -> bool {
    exists|j: int| 0 <= j < s.len() && same_ids(#[trigger] s[j], e)
}

/// The entries of `s`, keeping only the first of each identifier pair.
pub open spec fn dedup_devices(s: Seq<UsbDeviceView>) -> Seq<UsbDeviceView>
    decreases s.len(),
{
    if s.len() == 0 {
        s
    } else {
        let d = dedup_devices(s.drop_last());
        if has_ids(d, s.last()) {
            d
        } else {
            d.push(s.last())
        }
    }
}

/// Vendors of point-of-sale thermal printers: Seiko Epson, Star Micronics,
/// BIXOLON, Winbond and several generic makers.
pub open spec fn is_pos_vendor(v: u16) -> bool {
    v == 0x04B8 || v == 0x0519 || v == 0x1504 || v == 0x248A || v == 0x1FC9 || v == 0x0FE6 || v
        == 0x0416 || v == 0x6868 || v == 0x2D90
}

/// Whether an entry's vendor identifier names a point-of-sale vendor.
pub open spec fn is_known(d: UsbDeviceView) -> bool {
    match parse_u16_radix16(d.vendor_id) {
        Some(v) => is_pos_vendor(v),
        None => false,
    }
}

/// Strict lexicographic order of texts by character code (the order of
/// `String`, whose UTF-8 bytes compare in code point order).
pub open spec fn text_lt(a: Seq<char>, b: Seq<char>) -> bool
    decreases a.len(),
{
    if a.len() == 0 {
        b.len() > 0
    } else if b.len() == 0 {
        false
    } else if a[0] != b[0] {
        (a[0] as u32) < (b[0] as u32)
    } else {
        text_lt(a.drop_first(), b.drop_first())
    }
}

/// The order of `Option<String>`: `None` first, then the texts in order.
pub open spec fn opt_text_lt(a: Option<Seq<char>>, b: Option<Seq<char>>) -> bool {
    match (a, b) {
        (None, Some(_)) => true,
        (Some(x), Some(y)) => text_lt(x, y),
        _ => false,
    }
}

/// Whether `a` is listed strictly before `b`: point-of-sale vendors first,
/// then by product name.
pub open spec fn listed_before(a: UsbDeviceView, b: UsbDeviceView) -> bool {
    (is_known(a) && !is_known(b)) || (is_known(a) == is_known(b) && opt_text_lt(a.product, b.product))
}

/// `s` with `e` inserted before the first entry listed after it.
pub open spec fn insert_device(s: Seq<UsbDeviceView>, e: UsbDeviceView) -> Seq<UsbDeviceView>
    decreases s.len(),
{
    if s.len() == 0 {
        seq![e]
    } else if listed_before(e, s[0]) {
        seq![e] + s
    } else {
        seq![s[0]] + insert_device(s.drop_first(), e)
    }
}

/// The stable sort of `s` in listing order (what `sort_by` gives).
pub open spec fn sort_devices(s: Seq<UsbDeviceView>) -> Seq<UsbDeviceView>
    decreases s.len(),
{
    if s.len() == 0 {
        s
    } else {
        insert_device(sort_devices(s.drop_last()), s.last())
    }
}

/// The views of a list of entries.
pub open spec fn device_views(v: Seq<UsbDeviceInfo>) -> Seq<UsbDeviceView> {
    v.map_values(|d: UsbDeviceInfo| d@)
}

/// The list shown for the devices read, in the order they were read.
pub open spec fn usb_listing(raw: Seq<RawUsbDevice>) -> Seq<UsbDeviceView> {
    sort_devices(dedup_devices(raw.map_values(|d: RawUsbDevice| listed(d))))
}

fn shown(s: &Option<String>) -> (r: Option<String>)
    ensures
        opt_chars(r) == shown_text(*s),
{
    match s {
        Some(v) => if v.as_str().is_empty() {
            None
        } else {
            Some(v.clone())
        },
        None => None,
    }
}

/// The entry for a device read.
pub fn device_info(d: &RawUsbDevice) -> (r: UsbDeviceInfo)
    ensures
        r@ == listed(*d),
{
    UsbDeviceInfo {
        vendor_id: format_hex4_upper(d.vendor_id),
        product_id: format_hex4_upper(d.product_id),
        manufacturer: shown(&d.manufacturer),
        product: shown(&d.product),
        serial_number: shown(&d.serial_number),
    }
}

fn contains_ids(v: &Vec<UsbDeviceInfo>, e: &UsbDeviceInfo) -> (r: bool)
    ensures
        r == has_ids(device_views(v@), e@),
{
    let mut i: usize = 0;
    while i < v.len()
        invariant
            i <= v.len(),
            forall|j: int| 0 <= j < i ==> !same_ids(#[trigger] device_views(v@)[j], e@),
        decreases v.len() - i,
    {
        if str_equal(v[i].vendor_id.as_str(), e.vendor_id.as_str()) && str_equal(
            v[i].product_id.as_str(),
            e.product_id.as_str(),
        ) {
            proof {
                assert(same_ids(device_views(v@)[i as int], e@));
            }
            return true;
        }
        i = i + 1;
    }
    false
}

fn is_known_exec(d: &UsbDeviceInfo) -> (r: bool)
    ensures
        r == is_known(d@),
{
    match parse_u16_radix16_str(d.vendor_id.as_str()) {
        Some(v) => v == 0x04B8 || v == 0x0519 || v == 0x1504 || v == 0x248A || v == 0x1FC9 || v
            == 0x0FE6 || v == 0x0416 || v == 0x6868 || v == 0x2D90,
        None => false,
    }
}

fn text_lt_exec(a: &str, b: &str) -> (r: bool)
    ensures
        r == text_lt(a@, b@),
{
    let n = a.unicode_len();
    let m = b.unicode_len();
    let mut i: usize = 0;
    proof {
        assert(a@.skip(0) =~= a@);
        assert(b@.skip(0) =~= b@);
    }
    while i < n && i < m && a.get_char(i) == b.get_char(i)
        invariant
            i <= n,
            i <= m,
            n == a@.len(),
            m == b@.len(),
            text_lt(a@, b@) == text_lt(a@.skip(i as int), b@.skip(i as int)),
        decreases n - i,
    {
        proof {
            assert(a@.skip(i as int).drop_first() =~= a@.skip(i + 1));
            assert(b@.skip(i as int).drop_first() =~= b@.skip(i + 1));
        }
        i = i + 1;
    }
    if i == n {
        return i < m;
    }
    if i == m {
        return false;
    }
    (a.get_char(i) as u32) < (b.get_char(i) as u32)
}

fn listed_before_exec(a: &UsbDeviceInfo, b: &UsbDeviceInfo) -> (r: bool)
    ensures
        r == listed_before(a@, b@),
{
    let ka = is_known_exec(a);
    let kb = is_known_exec(b);
    if ka && !kb {
        return true;
    }
    if ka != kb {
        return false;
    }
    match (&a.product, &b.product) {
        (None, Some(_)) => true,
        (Some(x), Some(y)) => text_lt_exec(x.as_str(), y.as_str()),
        _ => false,
    }
}

proof fn lemma_insert_device_at(s: Seq<UsbDeviceView>, e: UsbDeviceView, k: int)
    requires
        0 <= k <= s.len(),
        forall|j: int| 0 <= j < k ==> !listed_before(e, #[trigger] s[j]),
        k == s.len() || listed_before(e, s[k]),
    ensures
        insert_device(s, e) == s.insert(k, e),
    decreases s.len(),
{
    if s.len() == 0 {
        assert(s.insert(k, e) =~= seq![e]);
    } else if listed_before(e, s[0]) {
        assert(k == 0);
        assert(s.insert(0, e) =~= seq![e] + s);
    } else {
        let t = s.drop_first();
        assert forall|j: int| 0 <= j < k - 1 implies !listed_before(e, #[trigger] t[j]) by {
            assert(t[j] == s[j + 1]);
        }
        lemma_insert_device_at(t, e, k - 1);
        assert(seq![s[0]] + t.insert(k - 1, e) =~= s.insert(k, e));
    }
}

/// The USB printers to show for the devices read, in read order: identifiers
/// as four upper-case hexadecimal digits, empty descriptor strings dropped,
/// one entry per vendor/product pair (the first one read), point-of-sale
/// vendors first and then by product name, ties kept in read order.
pub fn list_usb_printers(raw: &Vec<RawUsbDevice>) -> (r: Vec<UsbDeviceInfo>)
    ensures
        device_views(r@) == usb_listing(raw@),
{
    let ghost all = raw@.map_values(|d: RawUsbDevice| listed(d));
    let mut found: Vec<UsbDeviceInfo> = Vec::new();
    let mut i: usize = 0;
    while i < raw.len()
        invariant
            i <= raw.len(),
            all == raw@.map_values(|d: RawUsbDevice| listed(d)),
            device_views(found@) == dedup_devices(all.take(i as int)),
        decreases raw.len() - i,
    {
        let info = device_info(&raw[i]);
        proof {
            assert(all.take(i + 1).drop_last() =~= all.take(i as int));
            assert(all.take(i + 1).last() == info@);
        }
        if !contains_ids(&found, &info) {
            let ghost before = found@;
            found.push(info);
            proof {
                assert(device_views(found@) =~= device_views(before).push(found@.last()@));
            }
        }
        i = i + 1;
    }
    proof {
        assert(all.take(raw.len() as int) =~= all);
    }
    let ghost deduped = device_views(found@);
    let mut sorted: Vec<UsbDeviceInfo> = Vec::new();
    let mut j: usize = 0;
    while j < found.len()
        invariant
            j <= found.len(),
            deduped == device_views(found@),
            device_views(sorted@) == sort_devices(deduped.take(j as int)),
        decreases found.len() - j,
    {
        let e = found[j].clone();
        let mut k: usize = 0;
        while k < sorted.len() && !listed_before_exec(&e, &sorted[k])
            invariant
                k <= sorted.len(),
                forall|q: int| 0 <= q < k ==> !listed_before(e@, #[trigger] device_views(sorted@)[q]),
            decreases sorted.len() - k,
        {
            k = k + 1;
        }
        proof {
            assert(deduped.take(j + 1).drop_last() =~= deduped.take(j as int));
            assert(deduped.take(j + 1).last() == e@);
            lemma_insert_device_at(device_views(sorted@), e@, k as int);
        }
        let ghost before = sorted@;
        sorted.insert(k, e);
        proof {
            assert(device_views(sorted@) =~= device_views(before).insert(k as int, e@));
        }
        j = j + 1;
    }
    proof {
        assert(deduped.take(found.len() as int) =~= deduped);
    }
    sorted
}


/// Whether no two entries of `s` share vendor and product identifiers.
pub open spec fn ids_unique(s: Seq<UsbDeviceView>) -> bool {
    forall|i: int, j: int|
        0 <= i < s.len() && 0 <= j < s.len() && i != j ==> !same_ids(#[trigger] s[i], #[trigger] s[j])
}

/// Whether `s` is in listing order.
pub open spec fn in_listing_order(s: Seq<UsbDeviceView>) -> bool {
    forall|i: int, j: int| 0 <= i < j < s.len() ==> !listed_before(#[trigger] s[j], #[trigger] s[i])
}

proof fn lemma_insert_device_is_insert(s: Seq<UsbDeviceView>, e: UsbDeviceView) -> (k: int)
    ensures
        0 <= k <= s.len(),
        insert_device(s, e) == s.insert(k, e),
        forall|j: int| 0 <= j < k ==> !listed_before(e, #[trigger] s[j]),
        k == s.len() || listed_before(e, s[k]),
    decreases s.len(),
{
    if s.len() == 0 {
        assert(s.insert(0, e) =~= seq![e]);
        0
    } else if listed_before(e, s[0]) {
        assert(s.insert(0, e) =~= seq![e] + s);
        0
    } else {
        let t = s.drop_first();
        let k = lemma_insert_device_is_insert(t, e);
        assert(seq![s[0]] + t.insert(k, e) =~= s.insert(k + 1, e));
        assert forall|j: int| 0 <= j < k + 1 implies !listed_before(e, #[trigger] s[j]) by {
            if j > 0 {
                assert(s[j] == t[j - 1]);
            }
        }
        if k < t.len() {
            assert(s[k + 1] == t[k]);
        }
        k + 1
    }
}

proof fn lemma_has_ids_insert(s: Seq<UsbDeviceView>, k: int, e: UsbDeviceView, x: UsbDeviceView)
    requires
        0 <= k <= s.len(),
    ensures
        has_ids(s.insert(k, e), x) <==> has_ids(s, x) || same_ids(e, x),
{
    let t = s.insert(k, e);
    if has_ids(t, x) {
        let j = choose|j: int| 0 <= j < t.len() && same_ids(#[trigger] t[j], x);
        if j < k {
            assert(s[j] == t[j]);
        } else if j > k {
            assert(s[j - 1] == t[j]);
        }
    }
    if has_ids(s, x) {
        let j = choose|j: int| 0 <= j < s.len() && same_ids(#[trigger] s[j], x);
        if j < k {
            assert(t[j] == s[j]);
        } else {
            assert(t[j + 1] == s[j]);
        }
    }
    if same_ids(e, x) {
        assert(t[k] == e);
    }
}

proof fn lemma_sort_keeps_ids(s: Seq<UsbDeviceView>)
    ensures
        forall|x: UsbDeviceView| has_ids(sort_devices(s), x) <==> #[trigger] has_ids(s, x),
        ids_unique(s) ==> ids_unique(sort_devices(s)),
        sort_devices(s).len() == s.len(),
    decreases s.len(),
{
    if s.len() > 0 {
        let init = s.drop_last();
        lemma_sort_keeps_ids(init);
        let sorted = sort_devices(init);
        let k = lemma_insert_device_is_insert(sorted, s.last());
        assert forall|x: UsbDeviceView| has_ids(sort_devices(s), x) <==> #[trigger] has_ids(s, x) by {
            lemma_has_ids_insert(sorted, k, s.last(), x);
            assert(s == init.push(s.last()));
            lemma_has_ids_insert(init, init.len() as int, s.last(), x);
            assert(init.insert(init.len() as int, s.last()) =~= s);
            assert(has_ids(init, x) == has_ids(sorted, x));
        }
        if ids_unique(s) {
            assert(ids_unique(init)) by {
                assert forall|i: int, j: int|
                    0 <= i < init.len() && 0 <= j < init.len() && i != j implies !same_ids(
                    #[trigger] init[i],
                    #[trigger] init[j],
                ) by {
                    assert(init[i] == s[i] && init[j] == s[j]);
                }
            }
            assert(!has_ids(init, s.last())) by {
                if has_ids(init, s.last()) {
                    let j = choose|j: int| 0 <= j < init.len() && same_ids(#[trigger] init[j], s.last());
                    assert(s[j] == init[j]);
                    assert(same_ids(s[j], s[s.len() - 1]));
                }
            }
            assert(!has_ids(sorted, s.last()));
            let t = sorted.insert(k, s.last());
            assert forall|i: int, j: int|
                0 <= i < t.len() && 0 <= j < t.len() && i != j implies !same_ids(
                #[trigger] t[i],
                #[trigger] t[j],
            ) by {
                if i == k {
                    if j < k {
                        assert(t[j] == sorted[j]);
                    } else {
                        assert(t[j] == sorted[j - 1]);
                    }
                    if same_ids(t[i], t[j]) {
                        assert(same_ids(sorted[if j < k { j } else { j - 1 }], s.last()));
                    }
                } else if j == k {
                    if i < k {
                        assert(t[i] == sorted[i]);
                    } else {
                        assert(t[i] == sorted[i - 1]);
                    }
                    if same_ids(t[i], t[j]) {
                        assert(same_ids(sorted[if i < k { i } else { i - 1 }], s.last()));
                    }
                } else {
                    let ii = if i < k { i } else { i - 1 };
                    let jj = if j < k { j } else { j - 1 };
                    assert(t[i] == sorted[ii]);
                    assert(t[j] == sorted[jj]);
                }
            }
        }
    }
}

proof fn lemma_dedup_ids(s: Seq<UsbDeviceView>)
    ensures
        forall|x: UsbDeviceView| has_ids(dedup_devices(s), x) <==> #[trigger] has_ids(s, x),
        ids_unique(dedup_devices(s)),
    decreases s.len(),
{
    if s.len() > 0 {
        let init = s.drop_last();
        lemma_dedup_ids(init);
        let d = dedup_devices(init);
        assert forall|x: UsbDeviceView| has_ids(dedup_devices(s), x) <==> #[trigger] has_ids(s, x) by {
            lemma_has_ids_insert(init, init.len() as int, s.last(), x);
            assert(init.insert(init.len() as int, s.last()) =~= s);
            lemma_has_ids_insert(d, d.len() as int, s.last(), x);
            assert(d.insert(d.len() as int, s.last()) =~= d.push(s.last()));
            if has_ids(d, s.last()) && same_ids(s.last(), x) {
                let j = choose|j: int| 0 <= j < d.len() && same_ids(#[trigger] d[j], s.last());
                assert(same_ids(d[j], x));
            }
        }
        if !has_ids(d, s.last()) {
            let t = d.push(s.last());
            assert forall|i: int, j: int|
                0 <= i < t.len() && 0 <= j < t.len() && i != j implies !same_ids(
                #[trigger] t[i],
                #[trigger] t[j],
            ) by {
                if i == d.len() {
                    assert(t[j] == d[j]);
                } else if j == d.len() {
                    assert(t[i] == d[i]);
                    if same_ids(t[i], t[j]) {
                        assert(same_ids(d[i], s.last()));
                    }
                } else {
                    assert(t[i] == d[i] && t[j] == d[j]);
                }
            }
        }
    }
}

/// The USB list names each vendor/product pair once, and names every pair
/// that was read.
pub proof fn law_usb_listing_one_entry_per_device(raw: Seq<RawUsbDevice>)
    ensures
        ids_unique(usb_listing(raw)),
        forall|i: int| 0 <= i < raw.len() ==> has_ids(usb_listing(raw), listed(#[trigger] raw[i])),
{
    let all = raw.map_values(|d: RawUsbDevice| listed(d));
    lemma_dedup_ids(all);
    lemma_sort_keeps_ids(dedup_devices(all));
    assert forall|i: int| 0 <= i < raw.len() implies has_ids(usb_listing(raw), listed(#[trigger] raw[i])) by {
        assert(all[i] == listed(raw[i]));
        assert(same_ids(all[i], listed(raw[i])));
        assert(has_ids(all, listed(raw[i])));
    }
}

proof fn lemma_text_lt_asym_trans(a: Seq<char>, b: Seq<char>, c: Seq<char>)
    ensures
        text_lt(a, b) ==> !text_lt(b, a),
        text_lt(a, b) && text_lt(b, c) ==> text_lt(a, c),
    decreases a.len(),
{
    if a.len() > 0 && b.len() > 0 && c.len() > 0 {
        lemma_text_lt_asym_trans(a.drop_first(), b.drop_first(), c.drop_first());
    }
    if a.len() > 0 && b.len() > 0 {
        lemma_text_lt_asym_trans(a.drop_first(), b.drop_first(), b.drop_first());
    }
}

proof fn lemma_listed_before_order(a: UsbDeviceView, b: UsbDeviceView, c: UsbDeviceView)
    ensures
        listed_before(a, b) ==> !listed_before(b, a),
        listed_before(a, b) && listed_before(b, c) ==> listed_before(a, c),
{
    match (a.product, b.product, c.product) {
        (Some(x), Some(y), Some(z)) => {
            lemma_text_lt_asym_trans(x, y, z);
        },
        (Some(x), Some(y), _) => {
            lemma_text_lt_asym_trans(x, y, y);
        },
        _ => {},
    }
}

proof fn lemma_sort_in_order(s: Seq<UsbDeviceView>)
    ensures
        in_listing_order(sort_devices(s)),
    decreases s.len(),
{
    if s.len() > 0 {
        let init = s.drop_last();
        lemma_sort_in_order(init);
        let sorted = sort_devices(init);
        let e = s.last();
        let k = lemma_insert_device_is_insert(sorted, e);
        let t = sorted.insert(k, e);
        assert forall|i: int, j: int| 0 <= i < j < t.len() implies !listed_before(
            #[trigger] t[j],
            #[trigger] t[i],
        ) by {
            if i == k {
                assert(t[j] == sorted[j - 1]);
                if listed_before(sorted[j - 1], e) {
                    if j - 1 == k {
                        lemma_listed_before_order(sorted[k], e, sorted[k]);
                    } else {
                        lemma_listed_before_order(sorted[j - 1], e, sorted[k]);
                        assert(!listed_before(sorted[j - 1], sorted[k]));
                    }
                }
            } else if j == k {
                assert(t[i] == sorted[i]);
            } else {
                let ii = if i < k { i } else { i - 1 };
                let jj = if j < k { j } else { j - 1 };
                assert(t[i] == sorted[ii]);
                assert(t[j] == sorted[jj]);
            }
        }
    }
}

/// The USB list shows point-of-sale printers first and, within each group,
/// orders by product name (an absent name first).
pub proof fn law_usb_listing_pos_vendors_first(raw: Seq<RawUsbDevice>)
    ensures
        forall|i: int, j: int|
            0 <= i < j < usb_listing(raw).len() ==> !(is_known(#[trigger] usb_listing(raw)[j])
                && !is_known(#[trigger] usb_listing(raw)[i])),
        in_listing_order(usb_listing(raw)),
{
    lemma_sort_in_order(dedup_devices(raw.map_values(|d: RawUsbDevice| listed(d))));
}

proof fn lemma_dedup_members(s: Seq<UsbDeviceView>)
    ensures
        forall|x: UsbDeviceView| #[trigger] dedup_devices(s).contains(x) ==> s.contains(x),
    decreases s.len(),
{
    if s.len() > 0 {
        let init = s.drop_last();
        lemma_dedup_members(init);
        let d = dedup_devices(init);
        assert forall|x: UsbDeviceView| #[trigger] dedup_devices(s).contains(x) implies s.contains(x) by {
            if d.contains(x) {
                let k = choose|k: int| 0 <= k < init.len() && init[k] == x;
                assert(s[k] == x);
            } else {
                let k = choose|k: int| 0 <= k < dedup_devices(s).len() && dedup_devices(s)[k] == x;
                assert(dedup_devices(s) == d.push(s.last()));
                if k < d.len() {
                    assert(d[k] == x);
                }
                assert(s[s.len() - 1] == x);
            }
        }
    }
}

proof fn lemma_sort_members(s: Seq<UsbDeviceView>)
    ensures
        forall|x: UsbDeviceView| #[trigger] sort_devices(s).contains(x) ==> s.contains(x),
    decreases s.len(),
{
    if s.len() > 0 {
        let init = s.drop_last();
        lemma_sort_members(init);
        let sorted = sort_devices(init);
        let k = lemma_insert_device_is_insert(sorted, s.last());
        let t = sorted.insert(k, s.last());
        assert forall|x: UsbDeviceView| #[trigger] sort_devices(s).contains(x) implies s.contains(x) by {
            let j = choose|j: int| 0 <= j < t.len() && t[j] == x;
            if j == k {
                assert(s[s.len() - 1] == x);
            } else {
                let jj = if j < k { j } else { j - 1 };
                assert(sorted[jj] == x);
                assert(sorted.contains(x));
                let m = choose|m: int| 0 <= m < init.len() && init[m] == x;
                assert(s[m] == x);
            }
        }
    }
}

/// Whether `t` is the identifier, as the USB list prints it, of a vendor of
/// point-of-sale printers: Seiko Epson (04B8), Star Micronics (0519),
/// BIXOLON (1504), Winbond (0416) or the generic makers 248A, 1FC9, 0FE6,
/// 6868 and 2D90.
pub open spec fn pos_vendor_text(t: Seq<char>) -> bool {
    ||| t == hex4_upper(0x04B8)
    ||| t == hex4_upper(0x0519)
    ||| t == hex4_upper(0x1504)
    ||| t == hex4_upper(0x248A)
    ||| t == hex4_upper(0x1FC9)
    ||| t == hex4_upper(0x0FE6)
    ||| t == hex4_upper(0x0416)
    ||| t == hex4_upper(0x6868)
    ||| t == hex4_upper(0x2D90)
}

proof fn lemma_known_iff_pos_text(w: u16)
    ensures
        (parse_u16_radix16(hex4_upper(w)) matches Some(v) && is_pos_vendor(v)) <==> pos_vendor_text(
            hex4_upper(w),
        ),
{
    law_hex4_reads_back(w);
    law_hex4_reads_back(0x04B8);
    law_hex4_reads_back(0x0519);
    law_hex4_reads_back(0x1504);
    law_hex4_reads_back(0x248A);
    law_hex4_reads_back(0x1FC9);
    law_hex4_reads_back(0x0FE6);
    law_hex4_reads_back(0x0416);
    law_hex4_reads_back(0x6868);
    law_hex4_reads_back(0x2D90);
}

/// In the USB list every printer of a point-of-sale vendor (04B8, 0519,
/// 1504, 248A, 1FC9, 0FE6, 0416, 6868, 2D90) comes before every device of
/// any other vendor.
pub proof fn law_pos_vendor_printers_listed_first(raw: Seq<RawUsbDevice>)
    ensures
        forall|i: int, j: int|
            0 <= i < j < usb_listing(raw).len() ==> !(pos_vendor_text(
                #[trigger] usb_listing(raw)[j].vendor_id,
            ) && !pos_vendor_text(#[trigger] usb_listing(raw)[i].vendor_id)),
{
    let all = raw.map_values(|d: RawUsbDevice| listed(d));
    let l = usb_listing(raw);
    lemma_sort_in_order(dedup_devices(all));
    lemma_dedup_members(all);
    lemma_sort_members(dedup_devices(all));
    assert forall|i: int| 0 <= i < l.len() implies (is_known(#[trigger] l[i]) <==> pos_vendor_text(
        l[i].vendor_id,
    )) by {
        assert(l.contains(l[i]));
        assert(dedup_devices(all).contains(l[i]));
        assert(all.contains(l[i]));
        let k = choose|k: int| 0 <= k < all.len() && all[k] == l[i];
        assert(l[i] == listed(raw[k]));
        lemma_known_iff_pos_text(raw[k].vendor_id);
    }
    assert forall|i: int, j: int| 0 <= i < j < l.len() implies !(pos_vendor_text(
        #[trigger] l[j].vendor_id,
    ) && !pos_vendor_text(#[trigger] l[i].vendor_id)) by {
        assert(is_known(l[i]) <==> pos_vendor_text(l[i].vendor_id));
        assert(is_known(l[j]) <==> pos_vendor_text(l[j].vendor_id));
        assert(!listed_before(l[j], l[i]));
    }
}

} // verus!
