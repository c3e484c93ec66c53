//! A preview of an application's menu bar, recovered from its `MBAR` and
//! `MENU` resources by looking for the strings and item ids they hold.
use vstd::prelude::*;
use vstd::relations::{sorted_by, total_ordering};
use crate::palm::prc::{be16, parse_prc, prc_count, prc_entry, prc_well_formed, PrcResource};
use crate::palm::text::{
    all_ascii, all_printable, ascii_chars, ascii_string, bytes_eq, contains_bytes, decimal,
    ends_with, is_alnum, is_graphic, is_printable, lower, push_decimal, to_lower, trim,
    trim_spaces, upper_byte,
};

verus! {

/// Resource type `'MBAR'`.
pub const KIND_MBAR: u32 = 0x4D42_4152;
/// Resource type `'MENU'`.
pub const KIND_MENU: u32 = 0x4D45_4E55;
/// Resource type `'tMEN'`.
pub const KIND_TMEN: u32 = 0x744D_454E;

#[derive(Clone, Debug, Default)]
pub struct MenuItemPreview {
    pub id: u16,
    pub text: String,
    pub shortcut: Option<char>,
}

#[derive(Clone, Debug, Default)]
pub struct MenuPullDownPreview {
    pub resource_id: u16,
    pub title: String,
    pub items: Vec<MenuItemPreview>,
}

#[derive(Clone, Debug, Default)]
pub struct MenuBarPreview {
    pub resource_id: u16,
    pub menus: Vec<MenuPullDownPreview>,
}

#[verifier::ext_equal]
pub struct MenuItemSpec {
    pub id: u16,
    pub text: Seq<char>,
    pub shortcut: Option<char>,
}

#[verifier::ext_equal]
pub struct MenuSpec {
    pub resource_id: u16,
    pub title: Seq<char>,
    pub items: Seq<MenuItemSpec>,
}

#[verifier::ext_equal]
pub struct MenuBarSpec {
    pub resource_id: u16,
    pub menus: Seq<MenuSpec>,
}

impl View for MenuItemPreview {
    type V = MenuItemSpec;

    open spec fn view(&self) -> MenuItemSpec {
        MenuItemSpec { id: self.id, text: self.text@, shortcut: self.shortcut }
    }
}

impl View for MenuPullDownPreview {
    type V = MenuSpec;

    open spec fn view(&self) -> MenuSpec {
        MenuSpec {
            resource_id: self.resource_id,
            title: self.title@,
            items: self.items@.map_values(|i: MenuItemPreview| i@),
        }
    }
}

impl View for MenuBarPreview {
    type V = MenuBarSpec;

    open spec fn view(&self) -> MenuBarSpec {
        MenuBarSpec { resource_id: self.resource_id, menus: self.menus@.map_values(|m: MenuPullDownPreview| m@) }
    }
}

/// Where the run of non-NUL bytes that starts at `i` ends.
pub open spec fn run_end(data: Seq<u8>, i: int) -> int
    decreases data.len() - i,
{
    if i < 0 || i >= data.len() || data[i] == 0 {
        i
    } else {
        run_end(data, i + 1)
    }
}

/// The printable NUL-terminated strings of `data` from `i` on, trimmed,
/// with `cur` the bytes of the current string so far; strings with other
/// bytes, and strings that trim to nothing, are dropped.
pub open spec fn c_strings(data: Seq<u8>, i: int, cur: Seq<u8>) -> Seq<Seq<u8>>
    decreases data.len() - i,
{
    if i < 0 || i >= data.len() {
        flush(cur)
    } else if data[i] == 0 {
        flush(cur) + c_strings(data, i + 1, Seq::empty())
    } else {
        c_strings(data, i + 1, cur.push(data[i]))
    }
}

pub open spec fn flush(cur: Seq<u8>) -> Seq<Seq<u8>> {
    if cur.len() > 0 && all_printable(cur) && trim(cur).len() > 0 {
        seq![trim(cur)]
    } else {
        Seq::empty()
    }
}

/// The string that starts at `off`: it must start with a visible character
/// and hold only printable ones up to its NUL (or the end of the data).
pub open spec fn string_at(data: Seq<u8>, off: int) -> Option<Seq<u8>> {
    if off < 0 || off >= data.len() || !is_graphic(data[off]) {
        None
    } else {
        let run = data.subrange(off, run_end(data, off));
        if all_printable(run) { Some(trim(run)) } else { None }
    }
}

/// The distinct non-empty strings that the first `n` words of `data` point at.
pub open spec fn word_strings(data: Seq<u8>, n: int) -> Seq<Seq<u8>>
    decreases n,
{
    if n <= 0 {
        Seq::empty()
    } else {
        let prev = word_strings(data, n - 1);
        match string_at(data, be16(data, 2 * (n - 1)) as int) {
            Some(s) => if s.len() > 0 && !prev.contains(s) { prev.push(s) } else { prev },
            None => prev,
        }
    }
}

/// The strings of a menu resource: those its words point at, or else its
/// NUL-terminated strings.
pub open spec fn menu_strings(data: Seq<u8>) -> Seq<Seq<u8>> {
    let w = word_strings(data, (data.len() / 2) as int);
    if w.len() > 0 { w } else { c_strings(data, 0, Seq::empty()) }
}

/// The strings longer than one byte among the first `n`.
pub open spec fn long_strings(strings: Seq<Seq<u8>>, n: int) -> Seq<Seq<u8>>
    decreases n,
{
    if n <= 0 {
        Seq::empty()
    } else {
        let prev = long_strings(strings, n - 1);
        if strings[n - 1].len() > 1 { prev.push(strings[n - 1]) } else { prev }
    }
}

pub open spec fn menu_long_strings(data: Seq<u8>) -> Seq<Seq<u8>> {
    let s = menu_strings(data);
    long_strings(s, s.len() as int)
}

/// The menu title: its first long string, or `Menu` and the resource id.
pub open spec fn menu_title(resource_id: u16, data: Seq<u8>) -> Seq<u8> {
    let l = menu_long_strings(data);
    if l.len() > 0 { l[0] } else { seq![0x4Du8, 0x65u8, 0x6Eu8, 0x75u8] + decimal(resource_id as nat) }
}

/// Whether an item text is kept: not the title again, in any letter case,
/// and neither a suffix of it nor ending with it.
pub open spec fn keeps_item(title_lower: Seq<u8>, text: Seq<u8>) -> bool {
    let sl = lower(text);
    !(sl == title_lower || title_lower.is_suffix_of(sl) || sl.is_suffix_of(title_lower))
}

/// The kept item texts among the first `n` candidates.
pub open spec fn kept_items(title_lower: Seq<u8>, cands: Seq<Seq<u8>>, n: int) -> Seq<Seq<u8>>
    decreases n,
{
    if n <= 0 {
        Seq::empty()
    } else {
        let prev = kept_items(title_lower, cands, n - 1);
        if keeps_item(title_lower, cands[n - 1]) { prev.push(cands[n - 1]) } else { prev }
    }
}

/// The item texts of a menu resource.
pub open spec fn menu_item_texts(resource_id: u16, data: Seq<u8>) -> Seq<Seq<u8>> {
    let l = menu_long_strings(data);
    let cands = if l.len() > 0 { l.drop_first() } else { Seq::empty() };
    kept_items(lower(menu_title(resource_id, data)), cands, cands.len() as int)
}

/// Whether `v` looks like a menu item id of the resource `resource_id`.
pub open spec fn is_item_id(v: u16, resource_id: u16) -> bool {
    1000 <= v <= 0x7FFF && v != resource_id && v != 0xFFFF
}

/// The distinct item ids among the first `n` words of `data`.
pub open spec fn word_ids(data: Seq<u8>, resource_id: u16, n: int) -> Seq<u16>
    decreases n,
{
    if n <= 0 {
        Seq::empty()
    } else {
        let prev = word_ids(data, resource_id, n - 1);
        let v = be16(data, 2 * (n - 1));
        if is_item_id(v, resource_id) && !prev.contains(v) { prev.push(v) } else { prev }
    }
}

/// The id of item `k`: the `k`-th id found in the resource, or else one
/// made from the resource id.
pub open spec fn item_id(resource_id: u16, ids: Seq<u16>, k: int) -> u16 {
    if k < ids.len() {
        ids[k]
    } else {
        let base = if resource_id as int * 16 > 0xFFFF { 0xFFFFint } else { resource_id as int * 16 };
        if base + k + 1 > 0xFFFF { 0xFFFFu16 } else { (base + k + 1) as u16 }
    }
}

/// The shortcut letter of an item: its first letter or digit, in capitals.
pub open spec fn first_alnum(s: Seq<u8>) -> Option<u8>
    decreases s.len(),
{
    if s.len() == 0 {
        None
    } else if is_alnum(s[0]) {
        Some(upper_byte(s[0]))
    } else {
        first_alnum(s.drop_first())
    }
}

pub open spec fn shortcut_of(s: Seq<u8>) -> Option<char> {
    match first_alnum(s) {
        Some(b) => Some(b as char),
        None => None,
    }
}

/// A pull-down menu recovered from a `MENU` resource.
pub open spec fn menu_spec(resource_id: u16, data: Seq<u8>) -> MenuSpec {
    let texts = menu_item_texts(resource_id, data);
    let ids = word_ids(data, resource_id, (data.len() / 2) as int);
    MenuSpec {
        resource_id,
        title: ascii_chars(menu_title(resource_id, data)),
        items: Seq::new(
            texts.len(),
            |k: int| MenuItemSpec { id: item_id(resource_id, ids, k), text: ascii_chars(texts[k]), shortcut: shortcut_of(texts[k]) },
        ),
    }
}

/// Menus with more than 65535 items would overflow the item numbering.
pub open spec fn menu_fits(resource_id: u16, data: Seq<u8>) -> bool {
    menu_item_texts(resource_id, data).len() <= 0xFFFF
}


/// The contents of a list of byte strings.
pub open spec fn views(v: Seq<Vec<u8>>) -> Seq<Seq<u8>> {
    v.map_values(|b: Vec<u8>| b@)
}

pub open spec fn all_strings_printable(v: Seq<Seq<u8>>) -> bool {
    forall|k: int| 0 <= k < v.len() ==> all_printable(#[trigger] v[k])
}

proof fn lemma_c_strings_printable(data: Seq<u8>, i: int, cur: Seq<u8>)
    ensures
        all_strings_printable(c_strings(data, i, cur)),
    decreases data.len() - i,
{
    if cur.len() > 0 && all_printable(cur) {
        crate::palm::text::lemma_trim_printable(cur);
    }
    if i < 0 || i >= data.len() {
    } else if data[i] == 0 {
        lemma_c_strings_printable(data, i + 1, Seq::empty());
        let f = flush(cur);
        let r = c_strings(data, i + 1, Seq::empty());
        assert forall|k: int| 0 <= k < (f + r).len() implies all_printable(#[trigger] (f + r)[k]) by {
            if k < f.len() {
                assert((f + r)[k] == f[k]);
            } else {
                assert((f + r)[k] == r[k - f.len()]);
            }
        }
    } else {
        lemma_c_strings_printable(data, i + 1, cur.push(data[i]));
    }
}

proof fn lemma_run_end(data: Seq<u8>, i: int)
    requires
        0 <= i <= data.len(),
    ensures
        i <= run_end(data, i) <= data.len(),
        run_end(data, i) == data.len() || data[run_end(data, i)] == 0,
        forall|j: int| i <= j < run_end(data, i) ==> #[trigger] data[j] != 0,
    decreases data.len() - i,
{
    if i < data.len() && data[i] != 0 {
        lemma_run_end(data, i + 1);
    }
}

fn read_c_strings(data: &[u8]) -> (out: Vec<Vec<u8>>)
    ensures
        views(out@) == c_strings(data@, 0, Seq::empty()),
        all_strings_printable(views(out@)),
{
    let ghost total = c_strings(data@, 0, Seq::empty());
    let mut out: Vec<Vec<u8>> = Vec::new();
    let mut i: usize = 0;
    while i < data.len()
        invariant
            i <= data@.len(),
            views(out@) + c_strings(data@, i as int, Seq::empty()) == total,
            total == c_strings(data@, 0, Seq::empty()),
        decreases data@.len() - i,
    {
        let ghost i0 = i;
        while i < data.len() && data[i] == 0
            invariant
                i0 <= i <= data@.len(),
                views(out@) + c_strings(data@, i as int, Seq::empty()) == total,
            decreases data@.len() - i,
        {
            assert(c_strings(data@, i as int, Seq::empty()) =~= c_strings(data@, i + 1, Seq::empty()));
            i += 1;
        }
        if i < data.len() {
            let start = i;
            assert(data@.subrange(start as int, start as int) =~= Seq::<u8>::empty());
            while i < data.len() && data[i] != 0
                invariant
                    start <= i <= data@.len(),
                    c_strings(data@, start as int, Seq::empty()) == c_strings(
                        data@,
                        i as int,
                        data@.subrange(start as int, i as int),
                    ),
                decreases data@.len() - i,
            {
                assert(data@.subrange(start as int, i as int).push(data@[i as int]) =~= data@.subrange(
                    start as int,
                    i + 1,
                ));
                i += 1;
            }
            let ghost run = data@.subrange(start as int, i as int);
            assert(c_strings(data@, i as int, run) =~= flush(run) + c_strings(data@, i as int, Seq::empty())) by {
                if i < data@.len() {
                    assert(c_strings(data@, i as int, Seq::empty()) =~= c_strings(data@, i + 1, Seq::empty()));
                }
            }
            let bytes = vstd::slice::slice_subrange(data, start, i);
            let mut printable = true;
            let mut j: usize = 0;
            while j < bytes.len()
                invariant
                    j <= bytes@.len(),
                    printable == (forall|q: int| 0 <= q < j ==> is_printable(#[trigger] bytes@[q])),
                decreases bytes@.len() - j,
            {
                let b = bytes[j];
                if !(b == 0x20 || (0x21 <= b && b <= 0x7E)) {
                    printable = false;
                }
                j += 1;
            }
            let ghost before = out@;
            if printable && bytes.len() > 0 {
                let text = trim_spaces(bytes);
                if text.len() > 0 {
                    out.push(text);
                    assert(views(out@) =~= views(before) + seq![trim(run)]);
                }
            }
            assert(views(out@) + c_strings(data@, i as int, Seq::empty()) =~= views(before) + flush(run)
                + c_strings(data@, i as int, Seq::empty()));
        }
    }
    proof {
        lemma_c_strings_printable(data@, 0, Seq::empty());
        assert(views(out@) =~= total);
    }
    out
}

fn read_string_at(data: &[u8], off: usize) -> (r: Option<Vec<u8>>)
    ensures
        crate::palm::bitmap::opt_bytes(r) == string_at(data@, off as int),
        r matches Some(v) ==> all_printable(v@),
{
    if off >= data.len() {
        return None;
    }
    let first = data[off];
    if !(0x21 <= first && first <= 0x7E) {
        return None;
    }
    proof { lemma_run_end(data@, off as int); }
    let mut end = off;
    while end < data.len() && data[end] != 0
        invariant
            off <= end <= data@.len(),
            run_end(data@, off as int) == run_end(data@, end as int),
            forall|q: int| off <= q < end ==> is_printable(#[trigger] data@[q]),
        decreases data@.len() - end,
    {
        let b = data[end];
        if !(b == 0x20 || (0x21 <= b && b <= 0x7E)) {
            proof {
                lemma_run_end(data@, end as int);
                let run = data@.subrange(off as int, run_end(data@, off as int));
                assert(run[end - off] == b);
            }
            return None;
        }
        end += 1;
    }
    let ghost run = data@.subrange(off as int, end as int);
    assert(all_printable(run));
    proof { crate::palm::text::lemma_trim_printable(run); }
    Some(trim_spaces(vstd::slice::slice_subrange(data, off, end)))
}

fn read_strings_from_word_offsets(data: &[u8]) -> (out: Vec<Vec<u8>>)
    ensures
        views(out@) == word_strings(data@, (data@.len() / 2) as int),
        all_strings_printable(views(out@)),
{
    let mut out: Vec<Vec<u8>> = Vec::new();
    let len = data.len();
    let n = len / 2;
    let mut k: usize = 0;
    while k < n
        invariant
            len == data@.len(),
            n == data@.len() / 2,
            k <= n,
            views(out@) == word_strings(data@, k as int),
            all_strings_printable(views(out@)),
        decreases n - k,
    {
        assert(2 * k + 1 < data@.len()) by (nonlinear_arith) requires k < n, n == data@.len() / 2;
        let off = 2 * k;
        let ptr = (data[off] as u16) * 0x100 + (data[off + 1] as u16);
        assert(ptr == be16(data@, 2 * k));
        let ghost prev = views(out@);
        match read_string_at(data, ptr as usize) {
            Some(s) => {
                let dup = contains_bytes(&out, s.as_slice());
                assert(dup == prev.contains(s@)) by {
                    if dup {
                        let j = choose|j: int| 0 <= j < out@.len() && (#[trigger] out@[j])@ == s@;
                        assert(prev[j] == s@);
                    }
                    if prev.contains(s@) {
                        let j = choose|j: int| 0 <= j < prev.len() && prev[j] == s@;
                        assert(out@[j]@ == s@);
                    }
                }
                if s.len() > 0 && !dup {
                    out.push(s);
                    assert(views(out@) =~= prev.push(s@));
                }
            },
            None => {},
        }
        k += 1;
    }
    out
}

proof fn lemma_long_strings_printable(strings: Seq<Seq<u8>>, n: int)
    requires
        all_strings_printable(strings),
        n <= strings.len(),
    ensures
        all_strings_printable(long_strings(strings, n)),
        long_strings(strings, n).len() <= n || n <= 0,
    decreases n,
{
    if n > 0 {
        lemma_long_strings_printable(strings, n - 1);
    }
}

proof fn lemma_kept_items_printable(tl: Seq<u8>, cands: Seq<Seq<u8>>, n: int)
    requires
        all_strings_printable(cands),
        n <= cands.len(),
    ensures
        all_strings_printable(kept_items(tl, cands, n)),
    decreases n,
{
    if n > 0 {
        lemma_kept_items_printable(tl, cands, n - 1);
    }
}

/// The shortcut of an item text: its first letter or digit, in capitals.
fn shortcut(text: &[u8]) -> (c: Option<char>)
    ensures
        c == shortcut_of(text@),
{
    let mut i: usize = 0;
    assert(text@.subrange(0, text@.len() as int) =~= text@);
    while i < text.len()
        invariant
            i <= text@.len(),
            first_alnum(text@) == first_alnum(text@.subrange(i as int, text@.len() as int)),
        decreases text@.len() - i,
    {
        let b = text[i];
        assert(text@.subrange(i as int, text@.len() as int).drop_first() =~= text@.subrange(i + 1, text@.len() as int));
        if (0x30 <= b && b <= 0x39) || (0x41 <= b && b <= 0x5A) || (0x61 <= b && b <= 0x7A) {
            let u = if 0x61 <= b && b <= 0x7A { b - 0x20 } else { b };
            return Some(u as char);
        }
        i += 1;
    }
    None
}

fn parse_menu_resource(resource_id: u16, data: &[u8]) -> (m: MenuPullDownPreview)
    requires
        menu_fits(resource_id, data@),
    ensures
        m@ == menu_spec(resource_id, data@),
{
    let mut strings = read_strings_from_word_offsets(data);
    if strings.len() == 0 {
        strings = read_c_strings(data);
    }
    let ghost all = views(strings@);
    assert(all == menu_strings(data@));
    // The first string longer than one byte is the title, the others are items.
    let mut title: Option<Vec<u8>> = None;
    let mut item_texts: Vec<Vec<u8>> = Vec::new();
    let mut i: usize = 0;
    while i < strings.len()
        invariant
            i <= strings@.len(),
            all == views(strings@),
            all_strings_printable(all),
            title.is_none() <==> long_strings(all, i as int).len() == 0,
            title matches Some(t) ==> t@ == long_strings(all, i as int)[0],
            views(item_texts@) == (if long_strings(all, i as int).len() > 0 {
                long_strings(all, i as int).drop_first()
            } else {
                Seq::<Seq<u8>>::empty()
            }),
        decreases strings@.len() - i,
    {
        let ghost l = long_strings(all, i as int);
        let ghost before = views(item_texts@);
        if strings[i].len() > 1 {
            let s = vstd::slice::slice_to_vec(strings[i].as_slice());
            assert(s@ == all[i as int]);
            if title.is_none() {
                title = Some(s);
                assert(l.push(all[i as int]).drop_first() =~= Seq::<Seq<u8>>::empty());
            } else {
                item_texts.push(s);
                assert(views(item_texts@) =~= before.push(all[i as int]));
                assert(l.push(all[i as int]).drop_first() =~= l.drop_first().push(all[i as int]));
            }
        }
        i += 1;
    }
    let ghost longs = menu_long_strings(data@);
    assert(long_strings(all, all.len() as int) == longs);
    proof { lemma_long_strings_printable(all, all.len() as int); }
    let title: Vec<u8> = match title {
        Some(t) => t,
        None => {
            let mut t: Vec<u8> = Vec::new();
            t.push(0x4D);
            t.push(0x65);
            t.push(0x6E);
            t.push(0x75);
            push_decimal(&mut t, resource_id);
            assert(t@ =~= seq![0x4Du8, 0x65u8, 0x6Eu8, 0x75u8] + decimal(resource_id as nat));
            t
        },
    };
    assert(title@ == menu_title(resource_id, data@));
    proof {
        crate::palm::text::lemma_decimal_printable(resource_id as nat);
        if longs.len() > 0 {
            assert(all_printable(longs[0]));
        } else {
            assert forall|q: int| 0 <= q < title@.len() implies is_printable(#[trigger] title@[q]) by {
                if q >= 4 {
                    assert(title@[q] == decimal(resource_id as nat)[q - 4]);
                }
            }
        }
        crate::palm::text::lemma_printable_ascii(title@);
    }
    let title_lower = to_lower(title.as_slice());
    // Items that repeat the title, or that it ends with, or that end with it, are dropped.
    let ghost cands = views(item_texts@);
    proof {
        assert forall|k: int| 0 <= k < cands.len() implies all_printable(#[trigger] cands[k]) by {
            assert(cands[k] == longs[k + 1]);
        }
    }
    let mut kept: Vec<Vec<u8>> = Vec::new();
    let mut i: usize = 0;
    while i < item_texts.len()
        invariant
            i <= item_texts@.len(),
            cands == views(item_texts@),
            title_lower@ == lower(title@),
            views(kept@) == kept_items(title_lower@, cands, i as int),
        decreases item_texts@.len() - i,
    {
        let sl = to_lower(item_texts[i].as_slice());
        let same = bytes_eq(sl.as_slice(), title_lower.as_slice());
        let e1 = ends_with(sl.as_slice(), title_lower.as_slice());
        let e2 = ends_with(title_lower.as_slice(), sl.as_slice());
        let ghost before = views(kept@);
        if !(same || e1 || e2) {
            kept.push(vstd::slice::slice_to_vec(item_texts[i].as_slice()));
            assert(views(kept@) =~= before.push(cands[i as int]));
        }
        i += 1;
    }
    let ghost texts = menu_item_texts(resource_id, data@);
    assert(views(kept@) == texts);
    proof { lemma_kept_items_printable(title_lower@, cands, cands.len() as int); }

    // Candidate item ids: words in the user range, other than the resource's own id.
    let mut ids: Vec<u16> = Vec::new();
    let len = data.len();
    let n = len / 2;
    let mut k: usize = 0;
    while k < n
        invariant
            len == data@.len(),
            n == data@.len() / 2,
            k <= n,
            ids@ == word_ids(data@, resource_id, k as int),
        decreases n - k,
    {
        assert(2 * k + 1 < data@.len()) by (nonlinear_arith) requires k < n, n == data@.len() / 2;
        let v = (data[2 * k] as u16) * 0x100 + (data[2 * k + 1] as u16);
        assert(v == be16(data@, 2 * k));
        if 1000 <= v && v <= 0x7FFF && v != resource_id && v != 0xFFFF && !contains_u16(&ids, v) {
            ids.push(v);
        }
        k += 1;
    }

    let mut items: Vec<MenuItemPreview> = Vec::new();
    let mut idx: usize = 0;
    while idx < kept.len()
        invariant
            idx <= kept@.len(),
            views(kept@) == texts,
            texts.len() <= 0xFFFF,
            all_strings_printable(texts),
            ids@ == word_ids(data@, resource_id, (data@.len() / 2) as int),
            items@.len() == idx,
            forall|q: int| 0 <= q < idx ==> (#[trigger] items@[q])@ == (MenuItemSpec {
                id: item_id(resource_id, ids@, q),
                text: ascii_chars(texts[q]),
                shortcut: shortcut_of(texts[q]),
            }),
        decreases kept@.len() - idx,
    {
        let id = if idx < ids.len() {
            ids[idx]
        } else {
            let base: u32 = if (resource_id as u32) * 16 > 0xFFFF { 0xFFFF } else { (resource_id as u32) * 16 };
            let v = base + idx as u32 + 1;
            if v > 0xFFFF { 0xFFFF } else { v as u16 }
        };
        let text_bytes = kept[idx].as_slice();
        proof {
            assert(text_bytes@ == texts[idx as int]);
            crate::palm::text::lemma_printable_ascii(text_bytes@);
        }
        let sc = shortcut(text_bytes);
        let text = ascii_string(text_bytes);
        items.push(MenuItemPreview { id, text, shortcut: sc });
        idx += 1;
    }
    let m = MenuPullDownPreview { resource_id, title: ascii_string(title.as_slice()), items };
    assert(m@.items =~= menu_spec(resource_id, data@).items);
    m
}

fn contains_u16(list: &Vec<u16>, v: u16) -> (r: bool)
    ensures
        r == list@.contains(v),
{
    let mut i: usize = 0;
    while i < list.len()
        invariant
            i <= list@.len(),
            forall|j: int| 0 <= j < i ==> list@[j] != v,
        decreases list@.len() - i,
    {
        if list[i] == v {
            return true;
        }
        i += 1;
    }
    false
}


/// The resource map of a well-formed database.
pub open spec fn prc_entries(raw: Seq<u8>) -> Seq<PrcResource> {
    Seq::new(prc_count(raw) as nat, |i: int| prc_entry(raw, i))
}

pub open spec fn is_menu_kind(kind: u32) -> bool {
    kind == KIND_MENU || kind == KIND_TMEN
}

/// The data of a resource, when it lies inside the file.
pub open spec fn res_data(raw: Seq<u8>, r: PrcResource) -> Option<Seq<u8>> {
    let start = r.offset as int;
    let end = start + r.size as int;
    if end <= raw.len() { Some(raw.subrange(start, end)) } else { None }
}

/// The first `MBAR` resource at or after `i`.
pub open spec fn first_mbar(e: Seq<PrcResource>, i: int) -> Option<int>
    decreases e.len() - i,
{
    if i < 0 || i >= e.len() {
        None
    } else if e[i].kind == KIND_MBAR {
        Some(i)
    } else {
        first_mbar(e, i + 1)
    }
}

/// The first menu resource with id `id` at or after `i`.
pub open spec fn first_menu(e: Seq<PrcResource>, id: u16, i: int) -> Option<int>
    decreases e.len() - i,
{
    if i < 0 || i >= e.len() {
        None
    } else if is_menu_kind(e[i].kind) && e[i].id == id {
        Some(i)
    } else {
        first_menu(e, id, i + 1)
    }
}

/// The distinct ids among the first `n` words of the menu bar that name a menu resource.
pub open spec fn bar_menu_ids(e: Seq<PrcResource>, bar: Seq<u8>, n: int) -> Seq<u16>
    decreases n,
{
    if n <= 0 {
        Seq::empty()
    } else {
        let prev = bar_menu_ids(e, bar, n - 1);
        let v = be16(bar, 2 * (n - 1));
        if first_menu(e, v, 0) is Some && !prev.contains(v) { prev.push(v) } else { prev }
    }
}

/// The ids of the menu resources among the first `n` resources, in map order.
pub open spec fn all_menu_ids(e: Seq<PrcResource>, n: int) -> Seq<u16>
    decreases n,
{
    if n <= 0 {
        Seq::empty()
    } else {
        let prev = all_menu_ids(e, n - 1);
        if is_menu_kind(e[n - 1].kind) { prev.push(e[n - 1].id) } else { prev }
    }
}

pub open spec fn u16_leq() -> spec_fn(u16, u16) -> bool {
    |a: u16, b: u16| a <= b
}

/// The menus of the first `n` ids that name a menu resource inside the file.
pub open spec fn collected_menus(raw: Seq<u8>, e: Seq<PrcResource>, ids: Seq<u16>, n: int) -> Seq<MenuSpec>
    decreases n,
{
    if n <= 0 {
        Seq::empty()
    } else {
        let prev = collected_menus(raw, e, ids, n - 1);
        match first_menu(e, ids[n - 1], 0) {
            None => prev,
            Some(j) => match res_data(raw, e[j]) {
                None => prev,
                Some(d) => prev.push(menu_spec(ids[n - 1], d)),
            },
        }
    }
}

/// The menu ids of a database: those the menu bar lists, or else all menu
/// resources in increasing id order.
pub open spec fn menu_ids_spec(raw: Seq<u8>) -> Seq<u16> {
    let e = prc_entries(raw);
    let from_bar = match first_mbar(e, 0) {
        Some(j) => match res_data(raw, e[j]) {
            Some(d) => bar_menu_ids(e, d, (d.len() / 2) as int),
            None => Seq::empty(),
        },
        None => Seq::empty(),
    };
    if from_bar.len() > 0 { from_bar } else { all_menu_ids(e, e.len() as int).sort_by(u16_leq()) }
}

/// The menu bar of a database. `None` when the resource map cannot be read,
/// when the menu bar lies outside the file, or when no menu can be
/// recovered. A menu bar that names no menu resource is read as a single
/// menu when it holds items itself.
pub open spec fn menu_bar_spec(raw: Seq<u8>) -> Option<MenuBarSpec> {
    let e = prc_entries(raw);
    let mb = first_mbar(e, 0);
    if !prc_well_formed(raw) {
        None
    } else if mb is Some && res_data(raw, e[mb->0]) is None {
        None
    } else {
        let ids = menu_ids_spec(raw);
        if ids.len() == 0 {
            match mb {
                Some(j) => {
                    let single = menu_spec(e[j].id, res_data(raw, e[j])->0);
                    if single.items.len() > 0 {
                        Some(MenuBarSpec { resource_id: e[j].id, menus: seq![single] })
                    } else {
                        None
                    }
                },
                None => None,
            }
        } else {
            let menus = collected_menus(raw, e, ids, ids.len() as int);
            if menus.len() == 0 {
                None
            } else {
                Some(MenuBarSpec {
                    resource_id: match mb {
                        Some(j) => e[j].id,
                        None => 0,
                    },
                    menus,
                })
            }
        }
    }
}

/// Every menu that [`menu_bar_spec`] decodes numbers its items within 16 bits.
pub open spec fn menu_bar_fits(raw: Seq<u8>) -> bool {
    let e = prc_entries(raw);
    let mb = first_mbar(e, 0);
    let ids = menu_ids_spec(raw);
    &&& (mb is Some && ids.len() == 0 && res_data(raw, e[mb->0]) is Some) ==> menu_fits(
        e[mb->0].id,
        res_data(raw, e[mb->0])->0,
    )
    &&& forall|k: int| 0 <= k < ids.len() ==> #[trigger] menu_id_fits(raw, ids[k])
}

/// The menu resource that the id `id` names, if any, numbers its items within 16 bits.
pub open spec fn menu_id_fits(raw: Seq<u8>, id: u16) -> bool {
    let e = prc_entries(raw);
    match first_menu(e, id, 0) {
        Some(j) => match res_data(raw, e[j]) {
            Some(d) => menu_fits(id, d),
            None => true,
        },
        None => true,
    }
}

pub open spec fn opt_bar(r: Option<MenuBarPreview>) -> Option<MenuBarSpec> {
    match r {
        Some(b) => Some(b@),
        None => None,
    }
}

fn resource_data<'a>(raw: &'a [u8], r: PrcResource) -> (d: Option<&'a [u8]>)
    ensures
        match d {
            Some(s) => res_data(raw@, r) == Some(s@),
            None => res_data(raw@, r) is None,
        },
{
    let start = r.offset as usize;
    let size = r.size as usize;
    if size <= raw.len() && start <= raw.len() - size {
        Some(vstd::slice::slice_subrange(raw, start, start + size))
    } else {
        None
    }
}

fn find_mbar(res: &Vec<PrcResource>) -> (j: Option<usize>)
    ensures
        match j {
            Some(x) => first_mbar(res@, 0) == Some(x as int) && x < res@.len(),
            None => first_mbar(res@, 0) is None,
        },
{
    let mut i: usize = 0;
    while i < res.len()
        invariant
            i <= res@.len(),
            first_mbar(res@, 0) == first_mbar(res@, i as int),
        decreases res@.len() - i,
    {
        if res[i].kind == KIND_MBAR {
            return Some(i);
        }
        i += 1;
    }
    None
}

fn find_menu(res: &Vec<PrcResource>, id: u16) -> (j: Option<usize>)
    ensures
        match j {
            Some(x) => first_menu(res@, id, 0) == Some(x as int) && x < res@.len(),
            None => first_menu(res@, id, 0) is None,
        },
{
    let mut i: usize = 0;
    while i < res.len()
        invariant
            i <= res@.len(),
            first_menu(res@, id, 0) == first_menu(res@, id, i as int),
        decreases res@.len() - i,
    {
        if (res[i].kind == KIND_MENU || res[i].kind == KIND_TMEN) && res[i].id == id {
            return Some(i);
        }
        i += 1;
    }
    None
}

proof fn lemma_u16_leq_total()
    ensures
        total_ordering(u16_leq()),
{
}

/// The ids in increasing order.
fn sort_ids(ids: &Vec<u16>) -> (out: Vec<u16>)
    ensures
        out@ == ids@.sort_by(u16_leq()),
{
    broadcast use vstd::seq_lib::group_to_multiset_ensures;

    let mut out: Vec<u16> = Vec::new();
    let mut i: usize = 0;
    while i < ids.len()
        invariant
            i <= ids@.len(),
            sorted_by(out@, u16_leq()),
            out@.to_multiset() == ids@.subrange(0, i as int).to_multiset(),
        decreases ids@.len() - i,
    {
        let x = ids[i];
        let mut pos: usize = 0;
        while pos < out.len() && out[pos] <= x
            invariant
                pos <= out@.len(),
                forall|q: int| 0 <= q < pos ==> out@[q] <= x,
            decreases out@.len() - pos,
        {
            pos += 1;
        }
        let ghost before = out@;
        assert(sorted_by(before, u16_leq()));
        assert(pos < before.len() ==> before[pos as int] > x);
        out.insert(pos, x);
        proof {
            vstd::seq_lib::to_multiset_insert(before, pos as int, x);
            assert(ids@.subrange(0, i + 1) =~= ids@.subrange(0, i as int).push(x));
            vstd::seq_lib::to_multiset_build(ids@.subrange(0, i as int), x);
            assert forall|a: int, b: int| 0 <= a < b < out@.len() implies (u16_leq())(out@[a], out@[b]) by {
                let p = pos as int;
                if b < p {
                    assert((u16_leq())(before[a], before[b]));
                } else if b == p {
                    assert(out@[a] == before[a]);
                } else if a < p {
                    assert(out@[b] == before[b - 1]);
                    assert((u16_leq())(before[p], before[b - 1]) || b - 1 == p);
                } else if a == p {
                    assert(out@[b] == before[b - 1]);
                    assert((u16_leq())(before[p], before[b - 1]) || b - 1 == p);
                } else {
                    assert(out@[a] == before[a - 1]);
                    assert(out@[b] == before[b - 1]);
                    assert((u16_leq())(before[a - 1], before[b - 1]));
                }
            }
        }
        i += 1;
    }
    proof {
        lemma_u16_leq_total();
        ids@.lemma_sort_by_ensures(u16_leq());
        assert(ids@.subrange(0, ids@.len() as int) =~= ids@);
        vstd::seq_lib::lemma_sorted_unique(out@, ids@.sort_by(u16_leq()), u16_leq());
    }
    out
}

/// Recovers the menu bar of an application from its resource database:
/// the menus that its `MBAR` resource lists, or else all its `MENU`
/// resources in id order.
pub fn parse_menu_bar_preview(raw: &[u8]) -> (r: Option<MenuBarPreview>)
    requires
        menu_bar_fits(raw@),
    ensures
        opt_bar(r) == menu_bar_spec(raw@),
{
    let info = match parse_prc(raw) {
        Some(info) => info,
        None => {
            return None;
        },
    };
    let res = &info.resources;
    let ghost e = prc_entries(raw@);
    assert(res@ =~= e);
    let mbar = find_mbar(res);

    let mut menu_ids: Vec<u16> = Vec::new();
    let mut mbar_data: Option<&[u8]> = None;
    if let Some(j) = mbar {
        let d = match resource_data(raw, res[j]) {
            Some(d) => d,
            None => {
                return None;
            },
        };
        let len = d.len();
        let n = len / 2;
        let mut k: usize = 0;
        while k < n
            invariant
                len == d@.len(),
                n == d@.len() / 2,
                k <= n,
                res@ == e,
                menu_ids@ == bar_menu_ids(e, d@, k as int),
            decreases n - k,
        {
            assert(2 * k + 1 < d@.len()) by (nonlinear_arith) requires k < n, n == d@.len() / 2;
            let id = (d[2 * k] as u16) * 0x100 + (d[2 * k + 1] as u16);
            assert(id == be16(d@, 2 * k));
            if find_menu(res, id).is_some() && !contains_u16(&menu_ids, id) {
                menu_ids.push(id);
            }
            k += 1;
        }
        mbar_data = Some(d);
    }
    if menu_ids.len() == 0 {
        let mut all: Vec<u16> = Vec::new();
        let mut i: usize = 0;
        while i < res.len()
            invariant
                i <= res@.len(),
                res@ == e,
                all@ == all_menu_ids(e, i as int),
            decreases res@.len() - i,
        {
            if res[i].kind == KIND_MENU || res[i].kind == KIND_TMEN {
                all.push(res[i].id);
            }
            i += 1;
        }
        menu_ids = sort_ids(&all);
    }
    assert(menu_ids@ == menu_ids_spec(raw@));
    if menu_ids.len() == 0 {
        if let Some(j) = mbar {
            let d = mbar_data.unwrap();
            let single = parse_menu_resource(res[j].id, d);
            if single.items.len() > 0 {
                let id = res[j].id;
                let mut menus: Vec<MenuPullDownPreview> = Vec::new();
                menus.push(single);
                let bar = MenuBarPreview { resource_id: id, menus };
                assert(bar@.menus =~= seq![single@]);
                return Some(bar);
            }
        }
        return None;
    }

    let mut menus: Vec<MenuPullDownPreview> = Vec::new();
    let mut k: usize = 0;
    while k < menu_ids.len()
        invariant
            k <= menu_ids@.len(),
            res@ == e,
            e == prc_entries(raw@),
            menu_ids@ == menu_ids_spec(raw@),
            menu_bar_fits(raw@),
            menus@.map_values(|m: MenuPullDownPreview| m@) == collected_menus(raw@, e, menu_ids@, k as int),
        decreases menu_ids@.len() - k,
    {
        let id = menu_ids[k];
        let ghost before = menus@.map_values(|m: MenuPullDownPreview| m@);
        if let Some(j) = find_menu(res, id) {
            if let Some(d) = resource_data(raw, res[j]) {
                proof {
                    let ids_s = menu_ids_spec(raw@);
                    assert(ids_s[k as int] == id);
                    assert(menu_id_fits(raw@, ids_s[k as int]));
                    assert(first_menu(e, id, 0) == Some(j as int));
                    assert(res_data(raw@, e[j as int]) == Some(d@));
                }
                let m = parse_menu_resource(id, d);
                menus.push(m);
                assert(menus@.map_values(|m: MenuPullDownPreview| m@) =~= before.push(m@));
            }
        }
        k += 1;
    }
    if menus.len() == 0 {
        return None;
    }
    let resource_id = match mbar {
        Some(j) => res[j].id,
        None => 0,
    };
    Some(MenuBarPreview { resource_id, menus })
}

proof fn lemma_collected_menus_ordered(raw: Seq<u8>, e: Seq<PrcResource>, ids: Seq<u16>, n: int)
    requires
        0 <= n <= ids.len(),
        forall|i: int, j: int| 0 <= i < j < ids.len() ==> #[trigger] (u16_leq())(ids[i], ids[j]),
    ensures
        n > 0 ==> forall|k: int| 0 <= k < collected_menus(raw, e, ids, n).len()
            ==> #[trigger] collected_menus(raw, e, ids, n)[k].resource_id <= ids[n - 1],
        forall|k: int, l: int| 0 <= k < l < collected_menus(raw, e, ids, n).len()
            ==> #[trigger] collected_menus(raw, e, ids, n)[k].resource_id <= #[trigger] collected_menus(raw, e, ids, n)[l].resource_id,
    decreases n,
{
    if n > 0 {
        lemma_collected_menus_ordered(raw, e, ids, n - 1);
        let prev = collected_menus(raw, e, ids, n - 1);
        let cur = collected_menus(raw, e, ids, n);
        if n > 1 {
            assert((u16_leq())(ids[n - 2], ids[n - 1]));
        }
        assert forall|k: int| 0 <= k < prev.len() implies #[trigger] prev[k].resource_id <= ids[n - 1] by {
            assert(n > 1);
        }
        match first_menu(e, ids[n - 1], 0) {
            None => {},
            Some(j) => match res_data(raw, e[j]) {
                None => {},
                Some(d) => {
                    assert(cur == prev.push(menu_spec(ids[n - 1], d)));
                    assert(cur[prev.len() as int].resource_id == ids[n - 1]);
                    assert forall|k: int| 0 <= k < cur.len() implies #[trigger] cur[k].resource_id <= ids[n - 1] by {
                        if k < prev.len() {
                            assert(cur[k] == prev[k]);
                        }
                    }
                    assert forall|k: int, l: int| 0 <= k < l < cur.len()
                        implies #[trigger] cur[k].resource_id <= #[trigger] cur[l].resource_id by {
                        assert(cur[k] == prev[k]);
                        if l < prev.len() {
                            assert(cur[l] == prev[l]);
                        }
                    }
                },
            },
        }
    }
}

/// A database without a menu bar lists its menus in increasing id order.
pub proof fn lemma_menus_in_id_order(raw: Seq<u8>)
    requires
        first_mbar(prc_entries(raw), 0) is None,
        menu_bar_spec(raw) is Some,
    ensures
        forall|k: int, l: int| 0 <= k < l < menu_bar_spec(raw)->0.menus.len()
            ==> #[trigger] menu_bar_spec(raw)->0.menus[k].resource_id <= #[trigger] menu_bar_spec(raw)->0.menus[l].resource_id,
{
    let e = prc_entries(raw);
    let all = all_menu_ids(e, e.len() as int);
    lemma_u16_leq_total();
    all.lemma_sort_by_ensures(u16_leq());
    let ids = menu_ids_spec(raw);
    assert(ids == all.sort_by(u16_leq()));
    lemma_collected_menus_ordered(raw, e, ids, ids.len() as int);
}

} // verus!
