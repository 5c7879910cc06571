//! Buffer layouts: what the GPU's driver offers, what is offered to PipeWire,
//! and the search for a tiled layout that the driver keeps to itself.

use vstd::arithmetic::power2::{lemma2_to64, lemma_pow2_strictly_increases, pow2};
use vstd::bits::lemma_u32_shl_is_mul;
use vstd::prelude::*;

use crate::frames::{as_unsigned, unsigned, CapturedFrame};
use crate::gpu::DriEntry;
use crate::text::{begins_with, has_prefix, lowered, opt_text, same_text, to_lower, trim, trimmed};

verus! {

/// The layout of NVIDIA's block-linear buffers, as a DRM format modifier: the
/// vendor, a fixed bit, and what the driver may choose.
pub open spec fn block_linear(c: u64, s: u64, g: u64, k: u64, h: u64) -> int {
    0x0300_0000_0000_0000 + 0x10 + h % 16 + (k % 256) * 0x1000 + (g % 4) * 0x10_0000 + (s % 2)
        * 0x40_0000 + (s / 2 % 4) * 0x400_0000 + (c % 8) * 0x80_0000
}

/// The DRM format modifier of a block-linear buffer: compression `c`, sector
/// layout `s`, generation `g`, page kind `k`, and block height `h`.
pub fn nvidia_block_linear_2d(c: u64, s: u64, g: u64, k: u64, h: u64) -> (m: u64)
    ensures
        m == block_linear(c, s, g, k, h),
        m >> 56 == 3,
{
    let raw: u64 = 0x10 | (h & 0xf) | ((k & 0xff) << 12) | ((g & 0x3) << 20) | ((s & 0x1) << 22) | (
    (s & 0x6) << 25) | ((c & 0x7) << 23);
    let m: u64 = (0x03u64 << 56) | raw;
    assert(((0x03u64 << 56) | (0x10 | (h & 0xf) | ((k & 0xff) << 12) | ((g & 0x3) << 20) | ((s
        & 0x1) << 22) | ((s & 0x6) << 25) | ((c & 0x7) << 23))) == 0x0300_0000_0000_0000u64 + 0x10
        + h % 16 + (k % 256) * 0x1000 + (g % 4) * 0x10_0000 + (s % 2) * 0x40_0000 + (s / 2 % 4)
        * 0x400_0000 + (c % 8) * 0x80_0000) by (bit_vector);
    assert(((0x03u64 << 56) | (0x10 | (h & 0xf) | ((k & 0xff) << 12) | ((g & 0x3) << 20) | ((s
        & 0x1) << 22) | ((s & 0x6) << 25) | ((c & 0x7) << 23))) >> 56 == 3) by (bit_vector);
    m
}

/// How many layouts a search tries.
pub const CANDIDATES: u64 = 18432;

/// The `n`th layout that a search tries: every generation up to 2, in it every
/// block height up to 5, in it every sector layout up to 3, and in it every page
/// kind.
pub open spec fn candidate(n: int) -> int {
    block_linear(
        0,
        (n / 256 % 4) as u64,
        (n / 6144) as u64,
        (n % 256) as u64,
        (n / 1024 % 6) as u64,
    )
}

/// What a search does next.
#[derive(Clone, Copy, Debug, PartialEq, Eq, Structural)]
pub enum SearchStep {
    /// Try this layout.
    Try(u64),
    /// End with this layout.
    Found(u64),
    /// End without one.
    Exhausted,
}

/// A search through the layouts.
pub struct ModifierSearch {
    tried: u64,
}

impl ModifierSearch {
    /// How many layouts were tried.
    pub closed spec fn tried(self) -> nat {
        self.tried as nat
    }

    pub fn new() -> (s: ModifierSearch)
        ensures
            s.tried() == 0,
    {
        ModifierSearch { tried: 0 }
    }

    /// What comes next, `made` saying what the driver has made of the layout that
    /// was tried last: the layout it reports, where its buffer can be rendered to.
    /// The first one that can ends the search, and the search ends without one
    /// only once all were tried.
    pub fn step(&mut self, made: Option<u64>) -> (s: SearchStep)
        ensures
            s == next_step(old(self).tried(), made),
            made matches Some(m) ==> s == SearchStep::Found(m) && final(self).tried() == old(
                self,
            ).tried(),
            made is None && old(self).tried() < CANDIDATES ==> (s matches SearchStep::Try(v) && v
                == candidate(old(self).tried() as int)) && final(self).tried() == old(self).tried()
                + 1,
            made is None && old(self).tried() >= CANDIDATES ==> s == SearchStep::Exhausted
                && final(self).tried() == old(self).tried(),
    {
        match made {
            Some(m) => SearchStep::Found(m),
            None => {
                if self.tried >= CANDIDATES {
                    return SearchStep::Exhausted;
                }
                let n: u64 = self.tried;
                self.tried = n + 1;
                SearchStep::Try(
                    nvidia_block_linear_2d(0, n / 256 % 4, n / 6144, n % 256, n / 1024 % 6),
                )
            },
        }
    }
}

/// What a search does next, once `tried` layouts were tried and the driver has
/// made `made` of the last one.
pub open spec fn next_step(tried: nat, made: Option<u64>) -> SearchStep {
    match made {
        Some(m) => SearchStep::Found(m),
        None => if tried < CANDIDATES {
            SearchStep::Try(candidate(tried as int) as u64)
        } else {
            SearchStep::Exhausted
        },
    }
}

/// What a search comes to from there, where `outcomes` says what the driver makes
/// of each layout.
pub open spec fn search_from(tried: nat, made: Option<u64>, outcomes: Seq<Option<u64>>) -> Option<
    u64,
>
    decreases CANDIDATES - tried,
{
    match next_step(tried, made) {
        SearchStep::Found(m) => Some(m),
        SearchStep::Exhausted => None,
        SearchStep::Try(_) => if tried < CANDIDATES {
            search_from(tried + 1, outcomes[tried as int], outcomes)
        } else {
            None
        },
    }
}

/// Whether layout `n` is the first one that works.
pub open spec fn first_to_work(outcomes: Seq<Option<u64>>, n: int) -> bool {
    &&& 0 <= n < outcomes.len()
    &&& outcomes[n] is Some
    &&& forall|j: int| 0 <= j < n ==> (#[trigger] outcomes[j]) is None
}

proof fn lemma_search_from(tried: nat, made: Option<u64>, outcomes: Seq<Option<u64>>)
    requires
        outcomes.len() == CANDIDATES,
        tried <= CANDIDATES,
        tried > 0 ==> made == outcomes[tried - 1],
        tried == 0 ==> made is None,
        forall|j: int| 0 <= j < tried - 1 ==> (#[trigger] outcomes[j]) is None,
    ensures
        match search_from(tried, made, outcomes) {
            Some(m) => exists|n: int| #[trigger]
                first_to_work(outcomes, n) && outcomes[n] == Some(m),
            None => forall|j: int| 0 <= j < outcomes.len() ==> (#[trigger] outcomes[j]) is None,
        },
    decreases CANDIDATES - tried,
{
    match made {
        Some(m) => {
            assert(first_to_work(outcomes, tried - 1));
        },
        None => {
            if tried < CANDIDATES {
                lemma_search_from(tried + 1, outcomes[tried as int], outcomes);
            }
        },
    }
}

/// A search finds what the driver reports for the first layout that works, and
/// finds nothing only where none does.
pub proof fn law_search_finds_the_first_to_work(outcomes: Seq<Option<u64>>)
    requires
        outcomes.len() == CANDIDATES,
    ensures
        forall|n: int| #[trigger]
            first_to_work(outcomes, n) ==> search_from(0, None, outcomes) == outcomes[n],
        search_from(0, None, outcomes) is None <==> forall|j: int|
            0 <= j < outcomes.len() ==> (#[trigger] outcomes[j]) is None,
{
    lemma_search_from(0, None, outcomes);
    if search_from(0, None, outcomes) is Some {
        let k = choose|n: int| #[trigger]
            first_to_work(outcomes, n) && outcomes[n] == search_from(0, None, outcomes);
        assert(first_to_work(outcomes, k));
        assert forall|n: int| #[trigger] first_to_work(outcomes, n) implies search_from(
            0,
            None,
            outcomes,
        ) == outcomes[n] by {
            if n < k {
                assert(outcomes[n] is None);
            } else if k < n {
                assert(outcomes[k] is None);
            }
        }
    }
}

/// The fields of a layout can be read off it.
proof fn lemma_fields_read_back(h: int, k: int, g: int, s0: int, s1: int)
    requires
        0 <= h < 6,
        0 <= k < 256,
        0 <= g < 3,
        0 <= s0 < 2,
        0 <= s1 < 2,
    ensures
        ({
            let v = h + k * 0x1000 + g * 0x10_0000 + s0 * 0x40_0000 + s1 * 0x400_0000;
            &&& v % 0x1000 == h
            &&& v / 0x1000 % 256 == k
            &&& v / 0x10_0000 % 4 == g
            &&& v / 0x40_0000 % 2 == s0
            &&& v / 0x400_0000 == s1
        }),
{
    let v = h + k * 0x1000 + g * 0x10_0000 + s0 * 0x40_0000 + s1 * 0x400_0000;
    assert(v / 0x1000 == k + g * 0x100 + s0 * 0x400 + s1 * 0x4000);
    assert(v / 0x10_0000 == g + s0 * 4 + s1 * 0x40);
    assert(v / 0x40_0000 == s0 + s1 * 0x10);
}

/// The number of a layout among those that a search tries.
spec fn number_of(m: int) -> int {
    let v = m - 0x0300_0000_0000_0010;
    v / 0x1000 % 256 + 256 * (v / 0x40_0000 % 2 + 2 * (v / 0x400_0000)) + 1024 * (v % 0x1000)
        + 6144 * (v / 0x10_0000 % 4)
}

proof fn lemma_candidate_is_numbered(n: int)
    requires
        0 <= n < CANDIDATES,
    ensures
        number_of(candidate(n)) == n,
{
    let k = n % 256;
    let s = n / 256 % 4;
    let h = n / 1024 % 6;
    let g = n / 6144;
    assert(n == k + 256 * s + 1024 * h + 6144 * g) by {
        assert(n / 1024 == n / 256 / 4);
        assert(n / 6144 == n / 1024 / 6);
    }
    let s0 = s % 2;
    let s1 = s / 2;
    let v = h + k * 0x1000 + g * 0x10_0000 + s0 * 0x40_0000 + s1 * 0x400_0000;
    assert(candidate(n) == 0x0300_0000_0000_0010 + v);
    lemma_fields_read_back(h, k, g, s0, s1);
}

/// A search tries no layout twice.
pub proof fn law_candidates_are_distinct(a: int, b: int)
    requires
        0 <= a < CANDIDATES,
        0 <= b < CANDIDATES,
        candidate(a) == candidate(b),
    ensures
        a == b,
{
    lemma_candidate_is_numbered(a);
    lemma_candidate_is_numbered(b);
}

/// A modifier's lower and upper half, as EGL takes them.
pub fn modifier_halves(m: u64) -> (r: (u32, u32))
    ensures
        r.0 + 0x1_0000_0000 * r.1 == m,
{
    ((m % 0x1_0000_0000) as u32, (m / 0x1_0000_0000) as u32)
}

/// Whether an entry is a render node of NVIDIA's.
pub open spec fn is_nvidia(entry: DriEntry) -> bool {
    entry.is_render_node() && (entry.vendor matches Some(v) && lowered(trimmed(v@)) == "0x10de"@)
}

/// The first render node of NVIDIA's among the entries of `/dev/dri`.
pub fn find_nvidia_render_node(entries: &Vec<DriEntry>) -> (r: Option<String>)
    ensures
        match r {
            Some(path) => exists|i: int|
                0 <= i < entries@.len() && is_nvidia(#[trigger] entries@[i]) && path@
                    == "/dev/dri/"@ + entries@[i].name@ && forall|j: int|
                    0 <= j < i ==> !is_nvidia(#[trigger] entries@[j]),
            None => forall|j: int| 0 <= j < entries@.len() ==> !is_nvidia(#[trigger] entries@[j]),
        },
{
    let mut i: usize = 0;
    while i < entries.len()
        invariant
            i <= entries@.len(),
            forall|j: int| 0 <= j < i ==> !is_nvidia(#[trigger] entries@[j]),
        decreases entries@.len() - i,
    {
        let entry = &entries[i];
        let vendor = match &entry.vendor {
            Some(v) => same_text(to_lower(trim(v.as_str()).as_str()).as_str(), "0x10de"),
            None => false,
        };
        if begins_with(entry.name.as_str(), "renderD") && vendor {
            let mut path = "/dev/dri/".to_string();
            path.append(entry.name.as_str());
            assert(is_nvidia(entries@[i as int]));
            return Some(path);
        }
        i += 1;
    }
    None
}

/// What a search is for: a render node, where there is one, a pixel format and a
/// size.
#[derive(Clone, Debug, PartialEq, Eq)]
pub struct SearchKey {
    pub render_node: Option<String>,
    pub drm_fourcc: u32,
    pub width: u32,
    pub height: u32,
}

/// A [`SearchKey`] with the node as plain text.
#[verifier::ext_equal]
pub struct SearchKeyView {
    pub render_node: Option<Seq<char>>,
    pub drm_fourcc: u32,
    pub width: u32,
    pub height: u32,
}

impl View for SearchKey {
    type V = SearchKeyView;

    open spec fn view(&self) -> SearchKeyView {
        SearchKeyView {
            render_node: opt_text(self.render_node),
            drm_fourcc: self.drm_fourcc,
            width: self.width,
            height: self.height,
        }
    }
}

fn same_key(a: &SearchKey, b: &SearchKey) -> (r: bool)
    ensures
        r == (a@ == b@),
{
    let same_node = match (&a.render_node, &b.render_node) {
        (Some(x), Some(y)) => same_text(x.as_str(), y.as_str()),
        (None, None) => true,
        _ => false,
    };
    same_node && a.drm_fourcc == b.drm_fourcc && a.width == b.width && a.height == b.height
}

/// What searches have found before.
pub struct ModifierCache {
    found: Vec<(SearchKey, Option<u64>)>,
}

spec fn latest(found: Seq<(SearchKey, Option<u64>)>, key: SearchKeyView) -> Option<Option<u64>>
    decreases found.len(),
{
    if found.len() == 0 {
        None
    } else if found.last().0@ == key {
        Some(found.last().1)
    } else {
        latest(found.drop_last(), key)
    }
}

impl ModifierCache {
    /// What the search for `key` has found, where it was made.
    pub closed spec fn known(self, key: SearchKeyView) -> Option<Option<u64>> {
        latest(self.found@, key)
    }

    pub fn new() -> (c: ModifierCache)
        ensures
            forall|key: SearchKeyView| #[trigger] c.known(key) is None,
    {
        ModifierCache { found: Vec::new() }
    }

    /// What the search for `key` has found; none where it is still to be made.
    pub fn get(&self, key: &SearchKey) -> (r: Option<Option<u64>>)
        ensures
            r == self.known(key@),
    {
        let mut n: usize = self.found.len();
        assert(self.found@.take(n as int) =~= self.found@);
        while n > 0
            invariant
                n <= self.found@.len(),
                self.known(key@) == latest(self.found@.take(n as int), key@),
            decreases n,
        {
            assert(self.found@.take(n as int).drop_last() =~= self.found@.take(n - 1));
            assert(self.found@.take(n as int).last() == self.found@[n - 1]);
            if same_key(&self.found[n - 1].0, key) {
                return Some(self.found[n - 1].1);
            }
            n = n - 1;
        }
        None
    }

    /// The layout for `key`: what the first search for it has found, whatever a
    /// later one finds. A search that could not be made has found nothing, and
    /// counts too.
    pub fn find_working_tiled_modifier(
        &mut self,
        key: SearchKey,
        searched: Result<Option<u64>, String>,
    ) -> (r: Option<u64>)
        ensures
            r == match old(self).known(key@) {
                Some(v) => v,
                None => match searched {
                    Ok(m) => m,
                    Err(_) => None,
                },
            },
            final(self).known(key@) == Some(r),
            forall|k: SearchKeyView|
                k != key@ ==> #[trigger] final(self).known(k) == old(self).known(k),
    {
        if let Some(v) = self.get(&key) {
            return v;
        }
        let r = match searched {
            Ok(m) => m,
            Err(_) => None,
        };
        self.found.push((key, r));
        assert(self.found@.drop_last() =~= old(self).found@);
        r
    }
}

/// A pixel format that the driver can import, and the layouts it takes it in.
#[derive(Clone, Debug)]
pub struct DmabufFormat {
    pub drm_fourcc: u32,
    pub modifiers: Vec<i64>,
}

/// A [`DmabufFormat`], with its layouts as a sequence.
pub struct FormatView {
    pub drm_fourcc: u32,
    pub modifiers: Seq<i64>,
}

impl View for DmabufFormat {
    type V = FormatView;

    open spec fn view(&self) -> FormatView {
        FormatView { drm_fourcc: self.drm_fourcc, modifiers: self.modifiers@ }
    }
}

/// What each format says.
pub open spec fn formats_view(formats: Seq<DmabufFormat>) -> Seq<FormatView> {
    formats.map_values(|f: DmabufFormat| f@)
}

/// How many of a buffer's entries a driver has filled in, by the number it gave
/// back.
pub open spec fn filled(n: i32, len: nat) -> nat {
    if n <= 0 {
        0
    } else if n <= len {
        n as nat
    } else {
        len
    }
}

fn filled_len(n: i32, len: usize) -> (r: usize)
    ensures
        r == filled(n, len as nat),
        r <= len,
{
    if n <= 0 {
        0
    } else if n as u64 <= len as u64 {
        n as usize
    } else {
        len
    }
}

/// The formats that a driver has filled in.
pub fn filled_formats(buffer: &Vec<i32>, num_formats: i32) -> (out: Vec<i32>)
    ensures
        out@ == buffer@.take(filled(num_formats, buffer@.len()) as int),
{
    let n: usize = filled_len(num_formats, buffer.len());
    let mut out: Vec<i32> = Vec::new();
    let mut i: usize = 0;
    while i < n
        invariant
            i <= n <= buffer@.len(),
            out@ == buffer@.take(i as int),
        decreases n - i,
    {
        out.push(buffer[i]);
        assert(buffer@.take(i + 1) =~= buffer@.take(i as int).push(buffer@[i as int]));
        i += 1;
    }
    out
}

/// Notes the layouts that a driver has filled in for a format. A format that it
/// could not be asked about, or that has none, is left out.
pub fn push_format(
    formats: &mut Vec<DmabufFormat>,
    fourcc: i32,
    answered: bool,
    buffer: &Vec<i64>,
    num_mods: i32,
)
    ensures
        ({
            let mods = buffer@.take(filled(num_mods, buffer@.len()) as int);
            formats_view(final(formats)@) == if answered && mods.len() > 0 {
                formats_view(old(formats)@).push(
                    FormatView { drm_fourcc: unsigned(fourcc) as u32, modifiers: mods },
                )
            } else {
                formats_view(old(formats)@)
            }
        }),
{
    if !answered {
        return;
    }
    let n: usize = filled_len(num_mods, buffer.len());
    if n == 0 {
        return;
    }
    let mut modifiers: Vec<i64> = Vec::new();
    let mut i: usize = 0;
    while i < n
        invariant
            i <= n <= buffer@.len(),
            modifiers@ == buffer@.take(i as int),
        decreases n - i,
    {
        modifiers.push(buffer[i]);
        assert(buffer@.take(i + 1) =~= buffer@.take(i as int).push(buffer@[i as int]));
        i += 1;
    }
    let drm_fourcc: u32 = as_unsigned(fourcc);
    let format = DmabufFormat { drm_fourcc, modifiers };
    formats.push(format);
    assert(formats_view(formats@) =~= formats_view(old(formats)@).push(format@));
}

fn copy_mods(mods: &Vec<i64>) -> (out: Vec<i64>)
    ensures
        out@ == mods@,
{
    let mut out: Vec<i64> = Vec::new();
    let mut i: usize = 0;
    while i < mods.len()
        invariant
            i <= mods@.len(),
            out@ == mods@.take(i as int),
        decreases mods@.len() - i,
    {
        out.push(mods[i]);
        assert(mods@.take(i + 1) =~= mods@.take(i as int).push(mods@[i as int]));
        i += 1;
    }
    assert(mods@.take(mods@.len() as int) =~= mods@);
    out
}

fn copy_formats(formats: &Vec<DmabufFormat>) -> (out: Vec<DmabufFormat>)
    ensures
        formats_view(out@) == formats_view(formats@),
{
    let mut out: Vec<DmabufFormat> = Vec::new();
    let mut i: usize = 0;
    while i < formats.len()
        invariant
            i <= formats@.len(),
            out@.len() == i,
            forall|j: int| 0 <= j < i ==> (#[trigger] out@[j])@ == formats@[j]@,
        decreases formats@.len() - i,
    {
        let modifiers = copy_mods(&formats[i].modifiers);
        out.push(DmabufFormat { drm_fourcc: formats[i].drm_fourcc, modifiers });
        i += 1;
    }
    assert(formats_view(out@) =~= formats_view(formats@));
    out
}

/// What drivers have said before, by the compositor's socket.
pub struct FormatCache {
    known: Vec<(String, Vec<DmabufFormat>)>,
}

spec fn latest_formats(known: Seq<(String, Vec<DmabufFormat>)>, path: Seq<char>) -> Option<
    Seq<FormatView>,
>
    decreases known.len(),
{
    if known.len() == 0 {
        None
    } else if known.last().0@ == path {
        Some(formats_view(known.last().1@))
    } else {
        latest_formats(known.drop_last(), path)
    }
}

impl FormatCache {
    /// What the driver behind a socket has said, where it was asked.
    pub closed spec fn known(self, path: Seq<char>) -> Option<Seq<FormatView>> {
        latest_formats(self.known@, path)
    }

    pub fn new() -> (c: FormatCache)
        ensures
            forall|path: Seq<char>| #[trigger] c.known(path) is None,
    {
        FormatCache { known: Vec::new() }
    }

    /// What the driver behind a socket has said, where it was asked.
    pub fn get(&self, path: &str) -> (r: Option<Vec<DmabufFormat>>)
        ensures
            match r {
                Some(f) => self.known(path@) == Some(formats_view(f@)),
                None => self.known(path@) is None,
            },
    {
        let mut n: usize = self.known.len();
        assert(self.known@.take(n as int) =~= self.known@);
        while n > 0
            invariant
                n <= self.known@.len(),
                self.known(path@) == latest_formats(self.known@.take(n as int), path@),
            decreases n,
        {
            assert(self.known@.take(n as int).drop_last() =~= self.known@.take(n - 1));
            assert(self.known@.take(n as int).last() == self.known@[n - 1]);
            if same_text(self.known[n - 1].0.as_str(), path) {
                return Some(copy_formats(&self.known[n - 1].1));
            }
            n = n - 1;
        }
        None
    }

    /// What the driver behind a socket says: what it has said first, whatever it
    /// says later. One that could not be asked has said nothing, and that counts
    /// too.
    pub fn query_dmabuf_formats(
        &mut self,
        path: &str,
        queried: Result<Vec<DmabufFormat>, String>,
    ) -> (r: Vec<DmabufFormat>)
        ensures
            formats_view(r@) == match old(self).known(path@) {
                Some(f) => f,
                None => match queried {
                    Ok(f) => formats_view(f@),
                    Err(_) => seq![],
                },
            },
            final(self).known(path@) == Some(formats_view(r@)),
            forall|p: Seq<char>| p != path@ ==> #[trigger] final(self).known(p) == old(self).known(p),
    {
        if let Some(f) = self.get(path) {
            return f;
        }
        let r: Vec<DmabufFormat> = match queried {
            Ok(f) => f,
            Err(_) => {
                let none: Vec<DmabufFormat> = Vec::new();
                assert(formats_view(none@) =~= seq![]);
                none
            },
        };
        let copy = copy_formats(&r);
        self.known.push((path.to_string(), copy));
        assert(self.known@.drop_last() =~= old(self).known@);
        r
    }
}

/// `XR24`, whose SPA format is BGRx.
pub const FOURCC_XR24: u32 = 0x3432_5258;

/// `AR24`, whose SPA format is BGRA.
pub const FOURCC_AR24: u32 = 0x3432_5241;

pub const SPA_BGRX: u32 = 8;

pub const SPA_BGRA: u32 = 12;

/// The DRM name of a SPA video format; 0 for one without.
pub fn resolve_drm_fourcc(format: u32) -> (fourcc: u32)
    ensures
        fourcc == if format == SPA_BGRX {
            FOURCC_XR24
        } else if format == SPA_BGRA {
            FOURCC_AR24
        } else {
            0
        },
{
    if format == SPA_BGRX {
        FOURCC_XR24
    } else if format == SPA_BGRA {
        FOURCC_AR24
    } else {
        0
    }
}

/// Whether a negotiated format comes as DMA-BUFs: it has a modifier, and a DRM
/// name.
pub fn uses_dmabuf(has_modifier: bool, format: u32) -> (r: bool)
    ensures
        r == (has_modifier && (format == SPA_BGRX || format == SPA_BGRA)),
{
    has_modifier && resolve_drm_fourcc(format) != 0
}

/// The memory that a captured buffer is in.
#[derive(Clone, Copy, Debug, PartialEq, Eq, Structural)]
pub enum DataKind {
    DmaBuf,
    MemFd,
    Other,
}

/// The format that was negotiated.
#[derive(Clone, Copy)]
pub struct NegotiatedFormat {
    pub width: u32,
    pub height: u32,
    pub format: u32,
    pub modifier: u64,
}

/// What PipeWire says of a video format.
#[derive(Clone, Copy)]
pub struct VideoInfo {
    pub format: NegotiatedFormat,
    pub has_modifier: bool,
}

/// Takes in a parameter that PipeWire has set. Only raw video formats that can be
/// read matter; for one of those the result says whether its buffers are to come
/// as DMA-BUFs, which has to be answered.
pub fn param_changed(
    negotiated: &mut NegotiatedFormat,
    is_format: bool,
    is_raw_video: bool,
    info: Option<VideoInfo>,
) -> (dmabuf: Option<bool>)
    ensures
        ({
            let counts = is_format && is_raw_video && info is Some;
            &&& *final(negotiated) == if counts {
                info->Some_0.format
            } else {
                *old(negotiated)
            }
            &&& dmabuf == if counts {
                let f = info->Some_0.format.format;
                Some(info->Some_0.has_modifier && (f == SPA_BGRX || f == SPA_BGRA))
            } else {
                None
            }
        }),
{
    if !is_format || !is_raw_video {
        return None;
    }
    match info {
        None => None,
        Some(i) => {
            *negotiated = i.format;
            Some(uses_dmabuf(i.has_modifier, i.format.format))
        },
    }
}

/// Whether a buffer holds a frame that can be passed on: it is in memory with a
/// descriptor.
pub open spec fn passes_on(kind: DataKind, fd: i32) -> bool {
    kind != DataKind::Other && fd >= 0
}

/// The frame in a buffer, where it can be passed on. The descriptor that the
/// buffer is recycled under is its identity.
pub fn captured_frame(
    negotiated: NegotiatedFormat,
    kind: DataKind,
    fd: i32,
    stride: i32,
) -> (frame: Option<CapturedFrame>)
    ensures
        frame == if passes_on(kind, fd) {
            Some(
                CapturedFrame {
                    format: negotiated.format,
                    width: negotiated.width,
                    height: negotiated.height,
                    stride,
                    modifier: negotiated.modifier,
                    is_dma_buf: kind == DataKind::DmaBuf,
                    buffer_identity: fd as i64,
                },
            )
        } else {
            None
        },
{
    let other = match kind {
        DataKind::Other => true,
        _ => false,
    };
    if other || fd < 0 {
        return None;
    }
    let is_dma_buf = match kind {
        DataKind::DmaBuf => true,
        _ => false,
    };
    Some(
        CapturedFrame {
            format: negotiated.format,
            width: negotiated.width,
            height: negotiated.height,
            stride,
            modifier: negotiated.modifier,
            is_dma_buf,
            buffer_identity: fd as i64,
        },
    )
}

/// The layout of a plain buffer.
pub const LINEAR: i64 = 0;

/// A machine word read as signed.
pub open spec fn signed(m: u64) -> int {
    if m <= i64::MAX {
        m as int
    } else {
        m - 0x1_0000_0000_0000_0000
    }
}

fn as_signed(m: u64) -> (r: i64)
    ensures
        r == signed(m),
{
    if m <= 0x7fff_ffff_ffff_ffff {
        m as i64
    } else {
        (m as i128 - 0x1_0000_0000_0000_0000) as i64
    }
}

/// Whether a tiled layout is to be searched for: none is ruled out, and the
/// driver speaks of no other than the plain one.
pub open spec fn wants_search(mods: Seq<i64>, prefer_linear: bool) -> bool {
    !prefer_linear && mods == seq![LINEAR]
}

/// Whether a tiled layout is to be searched for.
pub fn needs_tiled_search(format: &DmabufFormat, prefer_linear: bool) -> (r: bool)
    ensures
        r == wants_search(format@.modifiers, prefer_linear),
{
    let r = !prefer_linear && format.modifiers.len() == 1 && format.modifiers[0] == LINEAR;
    proof {
        if r {
            assert(format.modifiers@ =~= seq![LINEAR]);
        }
    }
    r
}

/// The layouts that a format is offered in. Where only plain ones are wanted the
/// others are left out; where a search has found a tiled one it comes first.
pub open spec fn offered(mods: Seq<i64>, prefer_linear: bool, tiled: Option<u64>) -> Seq<i64> {
    if prefer_linear {
        mods.filter(|m: i64| m == LINEAR)
    } else if wants_search(mods, prefer_linear) && tiled is Some {
        seq![signed(tiled->Some_0) as i64, LINEAR]
    } else {
        mods
    }
}

/// The layouts that a format is offered in.
pub fn offered_modifiers(
    format: &DmabufFormat,
    prefer_linear: bool,
    tiled: Option<u64>,
) -> (out: Vec<i64>)
    ensures
        out@ == offered(format@.modifiers, prefer_linear, tiled),
{
    let mods = &format.modifiers;
    if prefer_linear {
        let mut out: Vec<i64> = Vec::new();
        let ghost plain = |m: i64| m == LINEAR;
        let mut i: usize = 0;
        assert(mods@.take(0).filter(plain) =~= seq![]) by {
            assert(mods@.take(0) =~= seq![]);
            reveal(Seq::filter);
        }
        while i < mods.len()
            invariant
                plain == (|m: i64| m == LINEAR),
                i <= mods@.len(),
                out@ == mods@.take(i as int).filter(plain),
            decreases mods@.len() - i,
        {
            proof {
                let next = mods@.take(i + 1);
                assert(next.drop_last() =~= mods@.take(i as int));
                assert(next.last() == mods@[i as int]);
                reveal(Seq::filter);
            }
            if mods[i] == LINEAR {
                out.push(mods[i]);
            }
            i += 1;
        }
        assert(mods@.take(mods@.len() as int) =~= mods@);
        return out;
    }
    if needs_tiled_search(format, prefer_linear) {
        if let Some(m) = tiled {
            let mut out: Vec<i64> = Vec::new();
            out.push(as_signed(m));
            out.push(LINEAR);
            return out;
        }
    }
    copy_mods(mods)
}

/// A format that is offered to PipeWire, with its layouts in order of
/// preference.
pub struct Offer {
    pub drm_fourcc: u32,
    pub spa_format: u32,
    pub modifiers: Vec<i64>,
}

/// An [`Offer`], with its layouts as a sequence.
#[verifier::ext_equal]
pub struct OfferView {
    pub drm_fourcc: u32,
    pub spa_format: u32,
    pub modifiers: Seq<i64>,
}

impl View for Offer {
    type V = OfferView;

    open spec fn view(&self) -> OfferView {
        OfferView {
            drm_fourcc: self.drm_fourcc,
            spa_format: self.spa_format,
            modifiers: self.modifiers@,
        }
    }
}

/// What each offer says.
pub open spec fn offers_view(offers: Seq<Offer>) -> Seq<OfferView> {
    offers.map_values(|o: Offer| o@)
}

/// The first format of that DRM name.
pub open spec fn format_named(formats: Seq<FormatView>, fourcc: u32) -> Option<FormatView>
    decreases formats.len(),
{
    if formats.len() == 0 {
        None
    } else if formats[0].drm_fourcc == fourcc {
        Some(formats[0])
    } else {
        format_named(formats.drop_first(), fourcc)
    }
}

/// The offer of a format, as a list of none or one: a format that the driver
/// does not know, or that has no layout left, is not offered.
pub open spec fn offer_of(
    formats: Seq<FormatView>,
    fourcc: u32,
    spa_format: u32,
    prefer_linear: bool,
    tiled: Option<u64>,
) -> Seq<OfferView> {
    match format_named(formats, fourcc) {
        None => seq![],
        Some(f) => {
            let modifiers = offered(f.modifiers, prefer_linear, tiled);
            if modifiers.len() == 0 {
                seq![]
            } else {
                seq![OfferView { drm_fourcc: fourcc, spa_format, modifiers }]
            }
        },
    }
}

/// The position of the first format of that DRM name.
pub fn find_format(formats: &Vec<DmabufFormat>, fourcc: u32) -> (r: Option<usize>)
    ensures
        match r {
            Some(i) => i < formats@.len() && format_named(formats_view(formats@), fourcc) == Some(
                formats@[i as int]@,
            ),
            None => format_named(formats_view(formats@), fourcc) is None,
        },
{
    let ghost all = formats_view(formats@);
    let mut i: usize = 0;
    assert(all.skip(0) =~= all);
    while i < formats.len()
        invariant
            all == formats_view(formats@),
            i <= formats@.len(),
            format_named(all, fourcc) == format_named(all.skip(i as int), fourcc),
        decreases formats@.len() - i,
    {
        assert(all.skip(i as int)[0] == formats@[i as int]@);
        assert(all.skip(i as int).drop_first() =~= all.skip(i + 1));
        if formats[i].drm_fourcc == fourcc {
            return Some(i);
        }
        i += 1;
    }
    None
}

/// The size that a tiled layout is searched for.
pub const SEARCH_WIDTH: u32 = 1920;

pub const SEARCH_HEIGHT: u32 = 1080;

/// Whether a tiled layout is to be searched for, for the format of that DRM name.
/// One that the driver does not know needs no search.
pub fn wants_tiled(formats: &Vec<DmabufFormat>, fourcc: u32, prefer_linear: bool) -> (r: bool)
    ensures
        r == match format_named(formats_view(formats@), fourcc) {
            Some(f) => wants_search(f.modifiers, prefer_linear),
            None => false,
        },
{
    match find_format(formats, fourcc) {
        Some(i) => needs_tiled_search(&formats[i], prefer_linear),
        None => false,
    }
}

fn push_offer(
    offers: &mut Vec<Offer>,
    formats: &Vec<DmabufFormat>,
    fourcc: u32,
    spa_format: u32,
    prefer_linear: bool,
    tiled: Option<u64>,
)
    ensures
        offers_view(final(offers)@) == offers_view(old(offers)@) + offer_of(
            formats_view(formats@),
            fourcc,
            spa_format,
            prefer_linear,
            tiled,
        ),
{
    if let Some(i) = find_format(formats, fourcc) {
        let modifiers = offered_modifiers(&formats[i], prefer_linear, tiled);
        if modifiers.len() > 0 {
            offers.push(Offer { drm_fourcc: fourcc, spa_format, modifiers });
        }
    }
    assert(offers_view(offers@) =~= offers_view(old(offers)@) + offer_of(
        formats_view(formats@),
        fourcc,
        spa_format,
        prefer_linear,
        tiled,
    ));
}

/// The formats to offer as DMA-BUFs, BGRx before BGRA; memory without layouts is
/// offered behind them in any case. The searches' results are for the two formats
/// in that order.
pub fn dmabuf_offers(
    formats: &Vec<DmabufFormat>,
    prefer_linear: bool,
    tiled_bgrx: Option<u64>,
    tiled_bgra: Option<u64>,
) -> (offers: Vec<Offer>)
    ensures
        offers_view(offers@) == offer_of(
            formats_view(formats@),
            FOURCC_XR24,
            SPA_BGRX,
            prefer_linear,
            tiled_bgrx,
        ) + offer_of(formats_view(formats@), FOURCC_AR24, SPA_BGRA, prefer_linear, tiled_bgra),
{
    let mut offers: Vec<Offer> = Vec::new();
    push_offer(&mut offers, formats, FOURCC_XR24, SPA_BGRX, prefer_linear, tiled_bgrx);
    push_offer(&mut offers, formats, FOURCC_AR24, SPA_BGRA, prefer_linear, tiled_bgra);
    assert(offers_view(offers@) =~= offer_of(
        formats_view(formats@),
        FOURCC_XR24,
        SPA_BGRX,
        prefer_linear,
        tiled_bgrx,
    ) + offer_of(formats_view(formats@), FOURCC_AR24, SPA_BGRA, prefer_linear, tiled_bgra));
    offers
}

/// The size that is asked for first, and the sizes that are taken.
pub const OFFERED_WIDTH: u32 = 1280;

pub const OFFERED_HEIGHT: u32 = 720;

pub const OFFERED_MIN_SIDE: u32 = 1;

pub const OFFERED_MAX_SIDE: u32 = 4096;

/// The frame rate that is asked for first, and those that are taken, in frames a
/// second.
pub const OFFERED_FPS: u32 = 60;

pub const OFFERED_MIN_FPS: u32 = 0;

pub const OFFERED_MAX_FPS: u32 = 1000;

/// A pixel format that is offered.
#[derive(Clone, Copy, Debug, PartialEq, Eq, Structural)]
pub enum OfferedFormat {
    Bgrx,
    Rgba,
    Bgra,
}

/// One of the ways in which frames may come.
pub struct FormatOffer {
    /// The pixel formats to choose from, the preferred one first.
    pub formats: Vec<OfferedFormat>,
    /// The layouts to choose from, the preferred one first; none for memory
    /// without layouts.
    pub modifiers: Option<Vec<i64>>,
}

/// A [`FormatOffer`], with its lists as sequences.
#[verifier::ext_equal]
pub struct FormatOfferView {
    pub formats: Seq<OfferedFormat>,
    pub modifiers: Option<Seq<i64>>,
}

impl View for FormatOffer {
    type V = FormatOfferView;

    open spec fn view(&self) -> FormatOfferView {
        FormatOfferView {
            formats: self.formats@,
            modifiers: match self.modifiers {
                Some(m) => Some(m@),
                None => None,
            },
        }
    }
}

impl OfferView {
    /// The offer of one format as DMA-BUFs.
    pub open spec fn dmabuf(self) -> FormatOfferView {
        FormatOfferView {
            formats: seq![
                if self.spa_format == SPA_BGRX {
                    OfferedFormat::Bgrx
                } else {
                    OfferedFormat::Bgra
                },
            ],
            modifiers: Some(self.modifiers),
        }
    }
}

/// The offer of memory without layouts, which stands behind all others.
pub open spec fn memory_offer() -> FormatOfferView {
    FormatOfferView {
        formats: seq![OfferedFormat::Bgrx, OfferedFormat::Rgba, OfferedFormat::Bgra],
        modifiers: None,
    }
}

/// Everything that is offered to PipeWire: the formats that can come as
/// DMA-BUFs, and memory without layouts behind them in any case.
pub fn format_offers(
    formats: &Vec<DmabufFormat>,
    prefer_linear: bool,
    tiled_bgrx: Option<u64>,
    tiled_bgra: Option<u64>,
) -> (out: Vec<FormatOffer>)
    ensures
        out@.map_values(|o: FormatOffer| o@) == (offer_of(
            formats_view(formats@),
            FOURCC_XR24,
            SPA_BGRX,
            prefer_linear,
            tiled_bgrx,
        ) + offer_of(
            formats_view(formats@),
            FOURCC_AR24,
            SPA_BGRA,
            prefer_linear,
            tiled_bgra,
        )).map_values(|o: OfferView| o.dmabuf()).push(memory_offer()),
{
    let offers = dmabuf_offers(formats, prefer_linear, tiled_bgrx, tiled_bgra);
    let ghost all = offers_view(offers@);
    let mut out: Vec<FormatOffer> = Vec::new();
    let mut i: usize = 0;
    while i < offers.len()
        invariant
            all == offers_view(offers@),
            i <= offers@.len(),
            out@.len() == i,
            forall|j: int| 0 <= j < i ==> (#[trigger] out@[j])@ == all[j].dmabuf(),
        decreases offers@.len() - i,
    {
        let format = if offers[i].spa_format == SPA_BGRX {
            OfferedFormat::Bgrx
        } else {
            OfferedFormat::Bgra
        };
        let modifiers = copy_mods(&offers[i].modifiers);
        let offer = FormatOffer { formats: vec![format], modifiers: Some(modifiers) };
        assert(offer@ =~= all[i as int].dmabuf());
        out.push(offer);
        i += 1;
    }
    let memory = FormatOffer {
        formats: vec![OfferedFormat::Bgrx, OfferedFormat::Rgba, OfferedFormat::Bgra],
        modifiers: None,
    };
    assert(memory@ =~= memory_offer());
    out.push(memory);
    assert(out@.map_values(|o: FormatOffer| o@) =~= all.map_values(
        |o: OfferView| o.dmabuf(),
    ).push(memory_offer()));
    out
}

/// How many damaged regions a buffer may tell of.
pub const DAMAGE_REGIONS: i32 = 16;

/// What is asked of the buffers, once a format is negotiated.
#[derive(Clone, Copy, Debug, PartialEq, Eq, Structural)]
pub struct BufferRequest {
    /// The kinds of memory that are taken, a bit for each.
    pub data_types: i32,
    /// The size of the list of damaged regions, in bytes: the size that is asked
    /// for, which is the largest too, and the smallest.
    pub damage_size: i32,
    pub damage_min: i32,
}

/// What is asked of the buffers: DMA-BUFs or plain memory, by the bits that
/// PipeWire has for them, and a list of damaged regions, of which each takes
/// `region_size` bytes.
pub fn buffer_request(
    dmabuf: bool,
    dma_buf_bit: u32,
    mem_ptr_bit: u32,
    region_size: i32,
) -> (r: BufferRequest)
    requires
        dma_buf_bit < 31,
        mem_ptr_bit < 31,
        0 <= region_size <= i32::MAX / DAMAGE_REGIONS,
    ensures
        r.data_types == pow2(
            if dmabuf {
                dma_buf_bit as nat
            } else {
                mem_ptr_bit as nat
            },
        ),
        r.damage_size == region_size * DAMAGE_REGIONS,
        r.damage_min == region_size,
{
    let bit: u32 = if dmabuf {
        dma_buf_bit
    } else {
        mem_ptr_bit
    };
    proof {
        lemma2_to64();
        lemma_pow2_strictly_increases(bit as nat, 31);
        lemma_u32_shl_is_mul(1, bit);
    }
    BufferRequest {
        data_types: (1u32 << bit) as i32,
        damage_size: region_size * DAMAGE_REGIONS,
        damage_min: region_size,
    }
}

/// Every format that is offered has a layout to start from, and where only plain
/// layouts are wanted it has no other.
pub proof fn law_offers_are_usable(
    formats: Seq<FormatView>,
    fourcc: u32,
    spa_format: u32,
    prefer_linear: bool,
    tiled: Option<u64>,
    i: int,
)
    requires
        0 <= i < offer_of(formats, fourcc, spa_format, prefer_linear, tiled).len(),
    ensures
        offer_of(formats, fourcc, spa_format, prefer_linear, tiled)[i].modifiers.len() > 0,
        prefer_linear ==> forall|j: int|
            0 <= j < offer_of(formats, fourcc, spa_format, prefer_linear, tiled)[i].modifiers.len()
                ==> #[trigger] offer_of(
                formats,
                fourcc,
                spa_format,
                prefer_linear,
                tiled,
            )[i].modifiers[j] == LINEAR,
{
    let f = format_named(formats, fourcc)->Some_0;
    if prefer_linear {
        let plain = |m: i64| m == LINEAR;
        let kept = f.modifiers.filter(plain);
        assert(offered(f.modifiers, prefer_linear, tiled) == kept);
        f.modifiers.filter_lemma(plain);
    }
}

/// What a block-linear layout says can be read off its bits: the vendor's number, the
/// fixed bit, and each field in its own place.
pub proof fn law_layouts_say_what_they_were_made_of(c: u64, s: u64, g: u64, k: u64, h: u64)
    ensures
        ({
            let m = block_linear(c, s, g, k, h);
            &&& 0 <= m <= u64::MAX
            &&& m / 0x0100_0000_0000_0000 == 3
            &&& m % 16 == h % 16
            &&& m / 16 % 256 == 1
            &&& m / 0x1000 % 256 == k % 256
            &&& m / 0x10_0000 % 4 == g % 4
            &&& m / 0x40_0000 % 2 == s % 2
            &&& m / 0x80_0000 % 8 == c % 8
            &&& m / 0x400_0000 % 4 == s / 2 % 4
        }),
{
    lemma_layout_fields(
        (h % 16) as int,
        (k % 256) as int,
        (g % 4) as int,
        (s % 2) as int,
        (c % 8) as int,
        (s / 2 % 4) as int,
    );
}

proof fn lemma_layout_fields(h: int, k: int, g: int, s0: int, c: int, s1: int)
    requires
        0 <= h < 16,
        0 <= k < 256,
        0 <= g < 4,
        0 <= s0 < 2,
        0 <= c < 8,
        0 <= s1 < 4,
    ensures
        ({
            let m = 0x0300_0000_0000_0000 + 0x10 + h + k * 0x1000 + g * 0x10_0000 + s0 * 0x40_0000
                + s1 * 0x400_0000 + c * 0x80_0000;
            &&& 0 <= m <= u64::MAX
            &&& m / 0x0100_0000_0000_0000 == 3
            &&& m % 16 == h
            &&& m / 16 % 256 == 1
            &&& m / 0x1000 % 256 == k
            &&& m / 0x10_0000 % 4 == g
            &&& m / 0x40_0000 % 2 == s0
            &&& m / 0x80_0000 % 8 == c
            &&& m / 0x400_0000 % 4 == s1
        }),
{
    let m = 0x0300_0000_0000_0000 + 0x10 + h + k * 0x1000 + g * 0x10_0000 + s0 * 0x40_0000 + s1
        * 0x400_0000 + c * 0x80_0000;
    assert(m / 16 == 0x0030_0000_0000_0000 + 1 + k * 0x100 + g * 0x1_0000 + s0 * 0x4_0000 + s1
        * 0x40_0000 + c * 0x8_0000);
    assert(m / 0x1000 == 0x0000_3000_0000_0000 + k + g * 0x100 + s0 * 0x400 + s1 * 0x4000 + c
        * 0x800);
    assert(m / 0x10_0000 == 0x0000_0030_0000_0000 + g + s0 * 4 + s1 * 0x40 + c * 8);
    assert(m / 0x40_0000 == 0x0000_000c_0000_0000 + s0 + s1 * 0x10 + c * 2);
    assert(m / 0x80_0000 == 0x0000_0006_0000_0000 + c + s1 * 8);
}

/// Every layout of the first three generations, of block heights up to five, of four
/// sector layouts and of all page kinds is tried, uncompressed.
pub proof fn law_every_layout_is_tried(s: u64, g: u64, k: u64, h: u64) -> (n: int)
    requires
        s < 4,
        g < 3,
        k < 256,
        h < 6,
    ensures
        0 <= n < 18432,
        CANDIDATES == 18432,
        candidate(n) == block_linear(0, s, g, k, h),
{
    let n = k + 256 * s + 1024 * h + 6144 * g;
    assert(n % 256 == k);
    assert(n / 256 == s + 4 * h + 24 * g);
    assert(n / 256 % 4 == s);
    assert(n / 1024 == h + 6 * g);
    assert(n / 1024 % 6 == h);
    assert(n / 6144 == g);
    n
}

/// Two searches are the same exactly where they are for the same render node, the
/// same pixel format, the same width and the same height.
pub proof fn law_searches_are_told_apart(a: SearchKey, b: SearchKey)
    ensures
        a@ == b@ <==> opt_text(a.render_node) == opt_text(b.render_node) && a.drm_fourcc
            == b.drm_fourcc && a.width == b.width && a.height == b.height,
{
}

/// A render node is NVIDIA's where its name is that of one and where the kernel gives
/// NVIDIA's number for it, whatever its letters and the white space around it.
pub proof fn law_nvidia_is_known_by_its_number(entry: DriEntry)
    ensures
        is_nvidia(entry) <==> has_prefix(entry.name@, "renderD"@) && entry.node().vendor
            == "0x10de"@,
{
    reveal_strlit("0x10de");
    assert("0x10de"@.len() == 6);
}

/// Of a buffer, what is taken is as much as the driver says it has filled in, but
/// never less than nothing nor more than there is.
pub proof fn law_no_more_is_taken_than_there_is(n: i32, len: nat)
    ensures
        filled(n, len) <= len,
        0 <= n <= len ==> filled(n, len) == n,
        n < 0 ==> filled(n, len) == 0,
        n > len ==> filled(n, len) == len,
{
}

/// The DRM names of the two formats are the four letters that they are written with,
/// the first in the lowest byte.
pub proof fn law_format_names_are_four_letters()
    ensures
        FOURCC_XR24 == 'X' as u32 + 256 * ('R' as u32) + 65536 * ('2' as u32) + 16777216 * (
        '4' as u32),
        FOURCC_AR24 == 'A' as u32 + 256 * ('R' as u32) + 65536 * ('2' as u32) + 16777216 * (
        '4' as u32),
        SPA_BGRX == 8,
        SPA_BGRA == 12,
{
}

proof fn lemma_kept_was_there(mods: Seq<i64>, keep: spec_fn(i64) -> bool, k: int)
    requires
        0 <= k < mods.filter(keep).len(),
    ensures
        mods.contains(mods.filter(keep)[k]),
    decreases mods.len(),
{
    reveal(Seq::filter);
    let front = mods.drop_last();
    if k < front.filter(keep).len() {
        lemma_kept_was_there(front, keep, k);
        let i = choose|i: int| 0 <= i < front.len() && front[i] == front.filter(keep)[k];
        assert(mods[i] == mods.filter(keep)[k]);
    } else {
        assert(mods[mods.len() - 1] == mods.filter(keep)[k]);
    }
}

/// Where plain layouts are asked for, a layout is offered exactly where the driver
/// takes it and it is the plain one. Otherwise all that the driver takes is offered,
/// in its order; only where that is the plain layout alone and a search has found
/// another, that one is offered before it, by the same bits.
pub proof fn law_layouts_are_offered_as_the_driver_takes_them(
    mods: Seq<i64>,
    prefer_linear: bool,
    tiled: Option<u64>,
    m: i64,
)
    ensures
        prefer_linear ==> (offered(mods, prefer_linear, tiled).contains(m) <==> mods.contains(m) && m
            == 0),
        !prefer_linear && !(mods.len() == 1 && mods[0] == 0 && tiled is Some) ==> offered(
            mods,
            prefer_linear,
            tiled,
        ) == mods,
        !prefer_linear && mods.len() == 1 && mods[0] == 0 && tiled is Some ==> ({
            let all = offered(mods, prefer_linear, tiled);
            let found = tiled->Some_0;
            &&& all.len() == 2
            &&& all[1] == 0
            &&& all[0] == found || all[0] + 0x1_0000_0000_0000_0000 == found
        }),
{
    if prefer_linear {
        let plain = |x: i64| x == LINEAR;
        mods.filter_lemma(plain);
        if mods.filter(plain).contains(m) {
            let k = choose|k: int| 0 <= k < mods.filter(plain).len() && mods.filter(plain)[k] == m;
            assert(plain(mods.filter(plain)[k]));
            lemma_kept_was_there(mods, plain, k);
        }
        if mods.contains(m) && m == 0 {
            let k = choose|k: int| 0 <= k < mods.len() && mods[k] == m;
            assert(plain(mods[k]));
            assert(mods.filter(plain).contains(mods[k]));
        }
    } else {
        if mods.len() == 1 && mods[0] == 0 {
            assert(mods =~= seq![LINEAR]);
        } else if mods == seq![LINEAR] {
            assert(mods.len() == 1 && mods[0] == 0);
        }
    }
}

/// A format is known by the first entry of its name, and where there is an entry of
/// its name, by one.
pub proof fn law_formats_are_found_by_their_first_entry(formats: Seq<FormatView>, fourcc: u32)
    ensures
        match format_named(formats, fourcc) {
            Some(f) => exists|i: int|
                0 <= i < formats.len() && #[trigger] formats[i] == f && f.drm_fourcc == fourcc && (
                forall|j: int| 0 <= j < i ==> (#[trigger] formats[j]).drm_fourcc != fourcc),
            None => forall|j: int|
                0 <= j < formats.len() ==> (#[trigger] formats[j]).drm_fourcc != fourcc,
        },
    decreases formats.len(),
{
    if formats.len() > 0 && formats[0].drm_fourcc != fourcc {
        let rest = formats.drop_first();
        law_formats_are_found_by_their_first_entry(rest, fourcc);
        match format_named(formats, fourcc) {
            Some(f) => {
                let i = choose|i: int|
                    0 <= i < rest.len() && #[trigger] rest[i] == f && f.drm_fourcc == fourcc && (
                    forall|j: int| 0 <= j < i ==> (#[trigger] rest[j]).drm_fourcc != fourcc);
                assert(formats[i + 1] == f);
                assert forall|j: int| 0 <= j < i + 1 implies (#[trigger] formats[j]).drm_fourcc
                    != fourcc by {
                    if j > 0 {
                        assert(formats[j] == rest[j - 1]);
                    }
                }
            },
            None => {
                assert forall|j: int| 0 <= j < formats.len() implies (
                #[trigger] formats[j]).drm_fourcc != fourcc by {
                    if j > 0 {
                        assert(formats[j] == rest[j - 1]);
                    }
                }
            },
        }
    }
}

/// A format is offered once at most, under the names that it was asked for by, and
/// with the layouts that are left of those that the driver takes it in; it is not
/// offered only where the driver does not know it or where no layout is left. As
/// DMA-BUFs it is offered as BGRx or as BGRA, by its number, and with all of its
/// layouts.
pub proof fn law_offers_are_what_the_driver_takes(
    formats: Seq<FormatView>,
    fourcc: u32,
    spa_format: u32,
    prefer_linear: bool,
    tiled: Option<u64>,
)
    ensures
        ({
            let all = offer_of(formats, fourcc, spa_format, prefer_linear, tiled);
            &&& all.len() <= 1
            &&& all.len() == 1 ==> all[0].drm_fourcc == fourcc && all[0].spa_format == spa_format
                && (format_named(formats, fourcc) matches Some(f) && all[0].modifiers == offered(
                f.modifiers,
                prefer_linear,
                tiled,
            ))
            &&& all.len() == 1 ==> all[0].dmabuf().modifiers == Some(all[0].modifiers)
                && all[0].dmabuf().formats == seq![
                if spa_format == 8 {
                    OfferedFormat::Bgrx
                } else {
                    OfferedFormat::Bgra
                },
            ]
            &&& all.len() == 0 <==> format_named(formats, fourcc) is None || offered(
                format_named(formats, fourcc)->Some_0.modifiers,
                prefer_linear,
                tiled,
            ).len() == 0
        }),
        memory_offer().modifiers is None,
        memory_offer().formats == seq![
            OfferedFormat::Bgrx,
            OfferedFormat::Rgba,
            OfferedFormat::Bgra,
        ],
{
}

/// A frame is passed on exactly where it is in a DMA-BUF or in shared memory, and has
/// a descriptor.
pub proof fn law_frames_with_a_descriptor_are_passed_on(kind: DataKind, fd: i32)
    ensures
        passes_on(kind, fd) <==> fd >= 0 && (kind is DmaBuf || kind is MemFd),
{
}

} // verus!
