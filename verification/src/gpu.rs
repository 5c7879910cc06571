//! Which GPU a session's compositor is shown, and the sandbox that shows it
//! that one alone.

use vstd::prelude::*;

use crate::text::{
    begins_with, behind_last, chars_of, follows, has_prefix, is_before, last_segment,
    lemma_text_less_is_total, lemma_text_less_is_transitive, lowered, opt_text, same_text, split, split_on,
    text_less, texts, to_lower, trim, trimmed,
};

verus! {

broadcast use crate::text::lemma_texts_push;

/// An entry of `/dev/dri`: its name, and what the kernel says of its vendor,
/// where that can be read.
pub struct DriEntry {
    pub name: String,
    pub vendor: Option<String>,
}

/// A render node: its path, and its vendor's number in small letters.
pub struct RenderNode {
    pub path: Seq<char>,
    pub vendor: Seq<char>,
}

/// How much a vendor is preferred, the lowest the most: NVIDIA, AMD, any other,
/// and Intel last.
pub open spec fn rank(vendor: Seq<char>) -> int {
    if vendor == "0x10de"@ {
        0
    } else if vendor == "0x1002"@ {
        1
    } else if vendor == "0x8086"@ {
        3
    } else {
        2
    }
}

pub fn vendor_rank(vendor_hex: &str) -> (r: u8)
    ensures
        r == rank(vendor_hex@),
{
    if same_text(vendor_hex, "0x10de") {
        0
    } else if same_text(vendor_hex, "0x1002") {
        1
    } else if same_text(vendor_hex, "0x8086") {
        3
    } else {
        2
    }
}

impl DriEntry {
    pub open spec fn is_render_node(self) -> bool {
        has_prefix(self.name@, "renderD"@)
    }

    pub open spec fn node(self) -> RenderNode {
        RenderNode {
            path: "/dev/dri/"@ + self.name@,
            vendor: match self.vendor {
                Some(v) => lowered(trimmed(v@)),
                None => seq![],
            },
        }
    }
}

/// The render nodes among the entries.
pub open spec fn render_nodes(entries: Seq<DriEntry>) -> Seq<RenderNode>
    decreases entries.len(),
{
    if entries.len() == 0 {
        seq![]
    } else {
        let front = render_nodes(entries.drop_last());
        if entries.last().is_render_node() {
            front.push(entries.last().node())
        } else {
            front
        }
    }
}

/// Whether `a` is preferred over `b`: by vendor, and among equals by path.
pub open spec fn preferred(a: RenderNode, b: RenderNode) -> bool {
    rank(a.vendor) < rank(b.vendor) || (rank(a.vendor) == rank(b.vendor) && text_less(
        a.path,
        b.path,
    ))
}

/// Whether `path` is that of a node that none is preferred over.
pub open spec fn is_best(nodes: Seq<RenderNode>, path: Seq<char>) -> bool {
    exists|i: int|
        0 <= i < nodes.len() && (#[trigger] nodes[i]).path == path && forall|j: int|
            0 <= j < nodes.len() ==> !preferred(#[trigger] nodes[j], nodes[i])
}

/// Whether a node has that path.
pub open spec fn has_path(nodes: Seq<RenderNode>, path: Seq<char>) -> bool {
    exists|i: int| 0 <= i < nodes.len() && (#[trigger] nodes[i]).path == path
}

/// The first path of the operator's list that a node has; an empty one is
/// passed over.
pub open spec fn first_configured(wanted: Seq<Seq<char>>, nodes: Seq<RenderNode>) -> Option<
    Seq<char>,
>
    decreases wanted.len(),
{
    if wanted.len() == 0 {
        None
    } else if wanted[0].len() > 0 && has_path(nodes, wanted[0]) {
        Some(wanted[0])
    } else {
        first_configured(wanted.drop_first(), nodes)
    }
}

/// Whether `chosen` is the render node to use: the operator's, where a path of
/// the colon-separated list is there, and the best one otherwise.
pub open spec fn is_choice(
    entries: Seq<DriEntry>,
    configured: Option<Seq<char>>,
    chosen: Option<Seq<char>>,
) -> bool {
    let nodes = render_nodes(entries);
    let named = match configured {
        Some(list) => first_configured(split(list, ':'), nodes),
        None => None,
    };
    if nodes.len() == 0 {
        chosen is None
    } else if named is Some {
        chosen == named
    } else {
        chosen matches Some(path) && is_best(nodes, path)
    }
}

/// The entries determine which render node is used.
pub proof fn law_choice_is_unique(
    entries: Seq<DriEntry>,
    configured: Option<Seq<char>>,
    a: Option<Seq<char>>,
    b: Option<Seq<char>>,
)
    requires
        is_choice(entries, configured, a),
        is_choice(entries, configured, b),
    ensures
        a == b,
{
    let nodes = render_nodes(entries);
    let named = match configured {
        Some(list) => first_configured(split(list, ':'), nodes),
        None => None,
    };
    if nodes.len() > 0 && named is None {
        let i = choose|i: int|
            0 <= i < nodes.len() && (#[trigger] nodes[i]).path == a->Some_0 && forall|j: int|
                0 <= j < nodes.len() ==> !preferred(#[trigger] nodes[j], nodes[i]);
        let k = choose|k: int|
            0 <= k < nodes.len() && (#[trigger] nodes[k]).path == b->Some_0 && forall|j: int|
                0 <= j < nodes.len() ==> !preferred(#[trigger] nodes[j], nodes[k]);
        assert(!preferred(nodes[k], nodes[i]));
        assert(!preferred(nodes[i], nodes[k]));
        lemma_text_less_is_total(nodes[i].path, nodes[k].path);
    }
}

/// What is held of a render node.
struct Node {
    path: String,
    vendor: String,
}

impl Node {
    spec fn says(self, node: RenderNode) -> bool {
        self.path@ == node.path && self.vendor@ == node.vendor
    }
}

spec fn all_say(held: Seq<Node>, nodes: Seq<RenderNode>) -> bool {
    &&& held.len() == nodes.len()
    &&& forall|i: int| 0 <= i < held.len() ==> (#[trigger] held[i]).says(nodes[i])
}

fn collect_nodes(entries: &Vec<DriEntry>) -> (held: Vec<Node>)
    ensures
        all_say(held@, render_nodes(entries@)),
{
    let mut held: Vec<Node> = Vec::new();
    let mut i: usize = 0;
    assert(entries@.take(0) =~= seq![]);
    while i < entries.len()
        invariant
            i <= entries@.len(),
            all_say(held@, render_nodes(entries@.take(i as int))),
        decreases entries@.len() - i,
    {
        proof {
            let next = entries@.take(i + 1);
            assert(next.drop_last() =~= entries@.take(i as int));
            assert(next.last() == entries@[i as int]);
        }
        let entry = &entries[i];
        if begins_with(entry.name.as_str(), "renderD") {
            let mut path = "/dev/dri/".to_string();
            path.append(entry.name.as_str());
            let vendor = match &entry.vendor {
                Some(v) => to_lower(trim(v.as_str()).as_str()),
                None => String::new(),
            };
            let ghost before = held@;
            let ghost node = entries@[i as int].node();
            held.push(Node { path, vendor });
            proof {
                assert(vendor@ =~= node.vendor);
                let nodes = render_nodes(entries@.take(i as int));
                assert(render_nodes(entries@.take(i + 1)) == nodes.push(node));
                assert forall|k: int| 0 <= k < held@.len() implies (#[trigger] held@[k]).says(
                    nodes.push(node)[k],
                ) by {
                    if k < before.len() {
                        assert(held@[k] == before[k]);
                        assert(before[k].says(nodes[k]));
                    }
                }
            }
        }
        i += 1;
    }
    assert(entries@.take(entries@.len() as int) =~= entries@);
    held
}

fn holds_path(held: &Vec<Node>, path: &str, Ghost(nodes): Ghost<Seq<RenderNode>>) -> (r: bool)
    requires
        all_say(held@, nodes),
    ensures
        r == has_path(nodes, path@),
{
    let mut i: usize = 0;
    while i < held.len()
        invariant
            all_say(held@, nodes),
            i <= held@.len(),
            forall|j: int| 0 <= j < i ==> (#[trigger] nodes[j]).path != path@,
        decreases held@.len() - i,
    {
        assert(held@[i as int].says(nodes[i as int]));
        if same_text(held[i].path.as_str(), path) {
            assert(nodes[i as int].path == path@);
            return true;
        }
        i += 1;
    }
    false
}

fn find_configured(
    held: &Vec<Node>,
    configured: &str,
    Ghost(nodes): Ghost<Seq<RenderNode>>,
) -> (r: Option<String>)
    requires
        all_say(held@, nodes),
    ensures
        match r {
            Some(path) => first_configured(split(configured@, ':'), nodes) == Some(path@),
            None => first_configured(split(configured@, ':'), nodes) is None,
        },
{
    let wanted = split_on(configured, ':');
    let ghost all = texts(wanted@);
    let mut i: usize = 0;
    assert(all.skip(0) =~= all);
    while i < wanted.len()
        invariant
            all_say(held@, nodes),
            all == texts(wanted@),
            all == split(configured@, ':'),
            i <= wanted@.len(),
            first_configured(all, nodes) == first_configured(all.skip(i as int), nodes),
        decreases wanted@.len() - i,
    {
        assert(all.skip(i as int)[0] == wanted@[i as int]@);
        assert(all.skip(i as int).drop_first() =~= all.skip(i + 1));
        if chars_of(wanted[i].as_str()).len() > 0 && holds_path(
            held,
            wanted[i].as_str(),
            Ghost(nodes),
        ) {
            return Some(wanted[i].clone());
        }
        i += 1;
    }
    None
}

fn is_preferred(a: &Node, b: &Node) -> (r: bool)
    ensures
        r == preferred(
            RenderNode { path: a.path@, vendor: a.vendor@ },
            RenderNode { path: b.path@, vendor: b.vendor@ },
        ),
{
    let x: u8 = vendor_rank(a.vendor.as_str());
    let y: u8 = vendor_rank(b.vendor.as_str());
    x < y || (x == y && is_before(a.path.as_str(), b.path.as_str()))
}

proof fn lemma_preference_is_transitive(a: RenderNode, b: RenderNode, c: RenderNode)
    requires
        preferred(a, b),
        preferred(b, c),
    ensures
        preferred(a, c),
{
    if rank(a.vendor) == rank(b.vendor) && rank(b.vendor) == rank(c.vendor) {
        lemma_text_less_is_transitive(a.path, b.path, c.path);
    }
}

proof fn lemma_preference_is_irreflexive(a: RenderNode)
    ensures
        !preferred(a, a),
{
    lemma_text_less_is_total(a.path, a.path);
}

fn find_best(held: &Vec<Node>, Ghost(nodes): Ghost<Seq<RenderNode>>) -> (path: String)
    requires
        all_say(held@, nodes),
        nodes.len() > 0,
    ensures
        is_best(nodes, path@),
{
    let mut best: usize = 0;
    let mut i: usize = 1;
    proof {
        lemma_preference_is_irreflexive(nodes[0]);
    }
    while i < held.len()
        invariant
            all_say(held@, nodes),
            best < i <= held@.len(),
            forall|j: int| 0 <= j < i ==> !preferred(#[trigger] nodes[j], nodes[best as int]),
        decreases held@.len() - i,
    {
        assert(held@[i as int].says(nodes[i as int]));
        assert(held@[best as int].says(nodes[best as int]));
        let ghost old_best = best;
        if is_preferred(&held[i], &held[best]) {
            proof {
                assert forall|j: int| 0 <= j < i + 1 implies !preferred(
                    #[trigger] nodes[j],
                    nodes[i as int],
                ) by {
                    if j < i {
                        if preferred(nodes[j], nodes[i as int]) {
                            lemma_preference_is_transitive(
                                nodes[j],
                                nodes[i as int],
                                nodes[best as int],
                            );
                        }
                    } else {
                        lemma_preference_is_irreflexive(nodes[i as int]);
                    }
                }
            }
            best = i;
        }
        i += 1;
    }
    assert(held@[best as int].says(nodes[best as int]));
    held[best].path.clone()
}

/// The render node that a session's compositor is to use. `configured` is the
/// operator's colon-separated list of paths in order of preference.
pub fn select_gpu_render_node(entries: &Vec<DriEntry>, configured: Option<&str>) -> (r: Option<
    String,
>)
    ensures
        is_choice(
            entries@,
            match configured {
                Some(list) => Some(list@),
                None => None,
            },
            match r {
                Some(path) => Some(path@),
                None => None,
            },
        ),
{
    let held = collect_nodes(entries);
    let ghost nodes = render_nodes(entries@);
    if held.len() == 0 {
        return None;
    }
    if let Some(list) = configured {
        let named = find_configured(&held, list, Ghost(nodes));
        if named.is_some() {
            return named;
        }
    }
    Some(find_best(&held, Ghost(nodes)))
}

/// A symbolic link in `/dev/dri/by-path`: where it is, what it points at, and
/// the name at the end of that.
pub struct ByPathLink {
    pub link: String,
    pub target: String,
    pub target_name: String,
}

/// What belongs to the same GPU as a render node.
pub struct RelatedDriNodes {
    pub card_node: Option<String>,
    /// Each link's own path, and what it points at.
    pub by_path_links: Vec<(String, String)>,
}

/// The first entry that names a card.
pub open spec fn first_card(names: Seq<Seq<char>>) -> Option<Seq<char>>
    decreases names.len(),
{
    if names.len() == 0 {
        None
    } else if has_prefix(names[0], "card"@) {
        Some(names[0])
    } else {
        first_card(names.drop_first())
    }
}

/// Whether a link points at the render node or at the card.
pub open spec fn is_related(
    target_name: Seq<char>,
    render_name: Seq<char>,
    card: Option<Seq<char>>,
) -> bool {
    target_name == render_name || card == Some(target_name)
}

/// The links among `links` that point at the render node or at the card.
pub open spec fn related_links(
    links: Seq<ByPathLink>,
    render_name: Seq<char>,
    card: Option<Seq<char>>,
) -> Seq<(Seq<char>, Seq<char>)>
    decreases links.len(),
{
    if links.len() == 0 {
        seq![]
    } else {
        let front = related_links(links.drop_last(), render_name, card);
        if is_related(links.last().target_name@, render_name, card) {
            front.push((links.last().link@, links.last().target@))
        } else {
            front
        }
    }
}

/// What belongs to the same GPU as `render_node`, given the names in the
/// kernel's directory for its device and the links in `/dev/dri/by-path`.
pub fn related_dri_nodes(
    render_node: &str,
    device_entries: &Vec<String>,
    links: &Vec<ByPathLink>,
) -> (r: RelatedDriNodes)
    ensures
        ({
            let card = first_card(texts(device_entries@));
            let card_path = match r.card_node {
                Some(p) => Some(p@),
                None => None,
            };
            let card_name = match card {
                Some(name) => Some(behind_last("/dev/dri/"@ + name, '/')),
                None => None,
            };
            &&& card_path == match card {
                Some(name) => Some("/dev/dri/"@ + name),
                None => None,
            }
            &&& crate::command::pairs(r.by_path_links@) == related_links(
                links@,
                behind_last(render_node@, '/'),
                card_name,
            )
        }),
{
    let render_name = last_segment(render_node);
    let ghost names = texts(device_entries@);
    let mut card_node: Option<String> = None;
    let mut i: usize = 0;
    assert(names.skip(0) =~= names);
    while i < device_entries.len() && card_node.is_none()
        invariant
            names == texts(device_entries@),
            i <= device_entries@.len(),
            match card_node {
                None => first_card(names) == first_card(names.skip(i as int)),
                Some(p) => first_card(names) is Some && p@ == "/dev/dri/"@ + first_card(
                    names,
                )->Some_0,
            },
        decreases device_entries@.len() - i,
    {
        assert(names.skip(i as int)[0] == device_entries@[i as int]@);
        assert(names.skip(i as int).drop_first() =~= names.skip(i + 1));
        if begins_with(device_entries[i].as_str(), "card") {
            let mut path = "/dev/dri/".to_string();
            path.append(device_entries[i].as_str());
            card_node = Some(path);
        }
        i += 1;
    }
    let card_name: Option<String> = match &card_node {
        Some(p) => Some(last_segment(p.as_str())),
        None => None,
    };
    let ghost card = opt_text(card_name);
    let mut by_path_links: Vec<(String, String)> = Vec::new();
    let mut k: usize = 0;
    assert(links@.take(0) =~= seq![]);
    assert(crate::command::pairs(by_path_links@) =~= seq![]);
    while k < links.len()
        invariant
            k <= links@.len(),
            card == opt_text(card_name),
            crate::command::pairs(by_path_links@) == related_links(
                links@.take(k as int),
                render_name@,
                card,
            ),
        decreases links@.len() - k,
    {
        proof {
            let next = links@.take(k + 1);
            assert(next.drop_last() =~= links@.take(k as int));
            assert(next.last() == links@[k as int]);
        }
        let name = links[k].target_name.as_str();
        let on_card = match &card_name {
            Some(c) => same_text(name, c.as_str()),
            None => false,
        };
        if same_text(name, render_name.as_str()) || on_card {
            let ghost before = by_path_links@;
            by_path_links.push((links[k].link.clone(), links[k].target.clone()));
            assert(crate::command::pairs(by_path_links@) =~= crate::command::pairs(before).push(
                (links@[k as int].link@, links@[k as int].target@),
            ));
        }
        k += 1;
    }
    assert(links@.take(links@.len() as int) =~= links@);
    RelatedDriNodes { card_node, by_path_links }
}

/// The arguments that put each link in place, its target first.
pub open spec fn link_arguments(links: Seq<(Seq<char>, Seq<char>)>) -> Seq<Seq<char>>
    decreases links.len(),
{
    if links.len() == 0 {
        seq![]
    } else {
        link_arguments(links.drop_last()).push("--symlink"@).push(links.last().1).push(
            links.last().0,
        )
    }
}

/// The start of a command that runs in a sandbox where `/dev/dri` holds one GPU.
pub open spec fn sandbox_arguments(
    node: Seq<char>,
    card: Option<Seq<char>>,
    links: Seq<(Seq<char>, Seq<char>)>,
) -> Seq<Seq<char>> {
    let base = seq![
        "bwrap"@,
        "--bind"@,
        "/"@,
        "/"@,
        "--dev-bind"@,
        "/dev"@,
        "/dev"@,
        "--tmpfs"@,
        "/dev/dri"@,
        "--dev-bind"@,
        node,
        node,
    ];
    let with_card = match card {
        Some(c) => base.push("--dev-bind"@).push(c).push(c),
        None => base,
    };
    let with_links = if links.len() == 0 {
        with_card
    } else {
        with_card.push("--dir"@).push("/dev/dri/by-path"@) + link_arguments(links)
    };
    with_links.push("--"@)
}

/// The start of a command that runs in a sandbox where `/dev/dri` holds one GPU;
/// none where there is no GPU to choose or `bwrap` is not there to do it.
pub fn gpu_sandbox_argv_prefix(
    node: Option<&str>,
    bwrap_available: bool,
    related: &RelatedDriNodes,
) -> (r: Option<Vec<String>>)
    ensures
        match r {
            None => node is None || !bwrap_available,
            Some(argv) => {
                &&& node is Some && bwrap_available
                &&& texts(argv@) == sandbox_arguments(
                    node->Some_0@,
                    match related.card_node {
                        Some(c) => Some(c@),
                        None => None,
                    },
                    crate::command::pairs(related.by_path_links@),
                )
            },
        },
{
    let node = match node {
        Some(n) => n,
        None => {
            return None;
        },
    };
    if !bwrap_available {
        return None;
    }
    let mut argv: Vec<String> = Vec::new();
    assert(texts(argv@) =~= seq![]);
    argv.push("bwrap".to_string());
    argv.push("--bind".to_string());
    argv.push("/".to_string());
    argv.push("/".to_string());
    argv.push("--dev-bind".to_string());
    argv.push("/dev".to_string());
    argv.push("/dev".to_string());
    argv.push("--tmpfs".to_string());
    argv.push("/dev/dri".to_string());
    argv.push("--dev-bind".to_string());
    argv.push(node.to_string());
    argv.push(node.to_string());
    if let Some(card) = &related.card_node {
        argv.push("--dev-bind".to_string());
        argv.push(card.clone());
        argv.push(card.clone());
    }
    let ghost links = crate::command::pairs(related.by_path_links@);
    if related.by_path_links.len() > 0 {
        argv.push("--dir".to_string());
        argv.push("/dev/dri/by-path".to_string());
        let ghost fixed = texts(argv@);
        let mut k: usize = 0;
        assert(links.take(0) =~= seq![]);
        assert(fixed + link_arguments(links.take(0)) =~= fixed);
        while k < related.by_path_links.len()
            invariant
                links == crate::command::pairs(related.by_path_links@),
                k <= related.by_path_links@.len(),
                texts(argv@) == fixed + link_arguments(links.take(k as int)),
            decreases related.by_path_links@.len() - k,
        {
            let ghost front = link_arguments(links.take(k as int));
            argv.push("--symlink".to_string());
            argv.push(related.by_path_links[k].1.clone());
            argv.push(related.by_path_links[k].0.clone());
            proof {
                let next = links.take(k + 1);
                assert(next.drop_last() =~= links.take(k as int));
                assert(next.last() == links[k as int]);
                assert(link_arguments(next) == front.push("--symlink"@).push(
                    links[k as int].1,
                ).push(links[k as int].0));
                assert((fixed + front).push("--symlink"@).push(links[k as int].1).push(
                    links[k as int].0,
                ) =~= fixed + link_arguments(next));
            }
            k += 1;
        }
        assert(links.take(links.len() as int) =~= links);
    }
    argv.push("--".to_string());
    Some(argv)
}

/// Any GPU of NVIDIA's is preferred over one of AMD's, that over one of any other
/// vendor, and that over one of Intel's; among those of one vendor, the one whose
/// path comes first is.
pub proof fn law_vendors_are_preferred_in_order(a: RenderNode, b: RenderNode)
    ensures
        a.vendor == "0x10de"@ && b.vendor != "0x10de"@ ==> preferred(a, b) && !preferred(b, a),
        a.vendor == "0x1002"@ && b.vendor != "0x10de"@ && b.vendor != "0x1002"@ ==> preferred(a, b)
            && !preferred(b, a),
        a.vendor != "0x8086"@ && b.vendor == "0x8086"@ ==> preferred(a, b) && !preferred(b, a),
        a.vendor == b.vendor ==> (preferred(a, b) <==> text_less(a.path, b.path)),
        rank(a.vendor) == 0 <==> a.vendor == "0x10de"@,
        rank(a.vendor) == 1 <==> a.vendor == "0x1002"@,
        rank(a.vendor) == 3 <==> a.vendor == "0x8086"@,
        0 <= rank(a.vendor) <= 3,
{
    reveal_strlit("0x10de");
    reveal_strlit("0x1002");
    reveal_strlit("0x8086");
    assert("0x10de"@[2] == '1' && "0x10de"@[4] == 'd');
    assert("0x1002"@[2] == '1' && "0x1002"@[4] == '0');
    assert("0x8086"@[2] == '8');
}

proof fn lemma_render_nodes(entries: Seq<DriEntry>)
    ensures
        forall|i: int|
            0 <= i < entries.len() && (#[trigger] entries[i]).is_render_node() ==> render_nodes(
                entries,
            ).contains(entries[i].node()),
    decreases entries.len(),
{
    if entries.len() > 0 {
        let front = entries.drop_last();
        lemma_render_nodes(front);
        let all = render_nodes(entries);
        let some = render_nodes(front);
        assert forall|i: int|
            0 <= i < entries.len() && (
            #[trigger] entries[i]).is_render_node() implies all.contains(entries[i].node()) by {
            if i < front.len() {
                assert(front[i] == entries[i]);
                assert(some.contains(front[i].node()));
                let k = choose|k: int| 0 <= k < some.len() && some[k] == front[i].node();
                assert(all[k] == some[k]);
            } else {
                assert(all[some.len() as int] == entries[i].node());
            }
        }
    }
}

proof fn lemma_node_stands_for(entries: Seq<DriEntry>, k: int) -> (i: int)
    requires
        0 <= k < render_nodes(entries).len(),
    ensures
        0 <= i < entries.len(),
        entries[i].is_render_node(),
        entries[i].node() == render_nodes(entries)[k],
    decreases entries.len(),
{
    let front = entries.drop_last();
    if k < render_nodes(front).len() {
        let i = lemma_node_stands_for(front, k);
        assert(entries[i] == front[i]);
        i
    } else {
        entries.len() - 1
    }
}

/// The render node that is used is one of `/dev/dri`; there is none exactly where
/// `/dev/dri` has no render node. Without the operator's word, no other vendor's is
/// used where NVIDIA has one, nor one of Intel's where there is any other.
pub proof fn law_the_chosen_node_is_there(
    entries: Seq<DriEntry>,
    configured: Option<Seq<char>>,
    chosen: Option<Seq<char>>,
)
    requires
        is_choice(entries, configured, chosen),
    ensures
        chosen is None <==> forall|i: int|
            0 <= i < entries.len() ==> !has_prefix((#[trigger] entries[i]).name@, "renderD"@),
        configured is None && chosen is Some ==> exists|i: int|
            0 <= i < entries.len() && has_prefix((#[trigger] entries[i]).name@, "renderD"@)
                && chosen == Some("/dev/dri/"@ + entries[i].name@) && (forall|j: int|
                0 <= j < entries.len() && has_prefix((#[trigger] entries[j]).name@, "renderD"@)
                    ==> {
                    let used = entries[i].node().vendor;
                    let other = entries[j].node().vendor;
                    &&& other == "0x10de"@ ==> used == "0x10de"@
                    &&& used == "0x8086"@ ==> other == "0x8086"@
                    &&& used == other ==> !text_less(
                        "/dev/dri/"@ + entries[j].name@,
                        "/dev/dri/"@ + entries[i].name@,
                    )
                }),
{
    lemma_render_nodes(entries);
    let nodes = render_nodes(entries);
    if nodes.len() == 0 {
        assert forall|i: int| 0 <= i < entries.len() implies !has_prefix(
            (#[trigger] entries[i]).name@,
            "renderD"@,
        ) by {
            if entries[i].is_render_node() {
                assert(nodes.contains(entries[i].node()));
            }
        }
    } else {
        let first = lemma_node_stands_for(entries, 0);
        assert(has_prefix(entries[first].name@, "renderD"@));
        if configured is None {
            let k = choose|k: int|
                0 <= k < nodes.len() && (#[trigger] nodes[k]).path == chosen->Some_0 && forall|
                    j: int,
                |
                    0 <= j < nodes.len() ==> !preferred(#[trigger] nodes[j], nodes[k]);
            let i = lemma_node_stands_for(entries, k);
            assert forall|j: int|
                0 <= j < entries.len() && has_prefix((#[trigger] entries[j]).name@, "renderD"@) implies {
                let used = entries[i].node().vendor;
                let other = entries[j].node().vendor;
                &&& other == "0x10de"@ ==> used == "0x10de"@
                &&& used == "0x8086"@ ==> other == "0x8086"@
                &&& used == other ==> !text_less(
                    "/dev/dri/"@ + entries[j].name@,
                    "/dev/dri/"@ + entries[i].name@,
                )
            } by {
                assert(entries[j].is_render_node());
                assert(nodes.contains(entries[j].node()));
                let m = choose|m: int| 0 <= m < nodes.len() && nodes[m] == entries[j].node();
                assert(!preferred(nodes[m], nodes[k]));
                law_vendors_are_preferred_in_order(nodes[m], nodes[k]);
            }
        }
    }
}

/// A render node is at its name in `/dev/dri`, and its vendor is what the kernel says
/// of it, in small letters and without white space around it.
pub proof fn law_vendors_are_read_from_the_kernel(entry: DriEntry)
    ensures
        entry.vendor matches Some(v) ==> entry.node().vendor == lowered(trimmed(v@)),
        entry.vendor is None ==> entry.node().vendor.len() == 0,
        entry.node().path == "/dev/dri/"@ + entry.name@,
{
}

proof fn lemma_first_configured(wanted: Seq<Seq<char>>, nodes: Seq<RenderNode>)
    ensures
        match first_configured(wanted, nodes) {
            Some(path) => exists|i: int|
                0 <= i < wanted.len() && #[trigger] wanted[i] == path && path.len() > 0 && has_path(
                    nodes,
                    path,
                ) && (forall|j: int|
                    0 <= j < i ==> (#[trigger] wanted[j]).len() == 0 || !has_path(
                        nodes,
                        wanted[j],
                    )),
            None => forall|j: int|
                0 <= j < wanted.len() ==> (#[trigger] wanted[j]).len() == 0 || !has_path(
                    nodes,
                    wanted[j],
                ),
        },
    decreases wanted.len(),
{
    if wanted.len() > 0 && !(wanted[0].len() > 0 && has_path(nodes, wanted[0])) {
        let rest = wanted.drop_first();
        lemma_first_configured(rest, nodes);
        match first_configured(wanted, nodes) {
            Some(path) => {
                let i = choose|i: int|
                    0 <= i < rest.len() && #[trigger] rest[i] == path && path.len() > 0 && has_path(
                        nodes,
                        path,
                    ) && (forall|j: int|
                        0 <= j < i ==> (#[trigger] rest[j]).len() == 0 || !has_path(nodes, rest[j]));
                assert(wanted[i + 1] == path);
                assert forall|j: int| 0 <= j < i + 1 implies (#[trigger] wanted[j]).len() == 0
                    || !has_path(nodes, wanted[j]) by {
                    if j > 0 {
                        assert(wanted[j] == rest[j - 1]);
                    }
                }
            },
            None => {
                assert forall|j: int| 0 <= j < wanted.len() implies (#[trigger] wanted[j]).len()
                    == 0 || !has_path(nodes, wanted[j]) by {
                    if j > 0 {
                        assert(wanted[j] == rest[j - 1]);
                    }
                }
            },
        }
    }
}

/// Where the operator's list names a render node that is there, the first such is
/// used, whatever its vendor.
pub proof fn law_the_operators_choice_comes_first(
    entries: Seq<DriEntry>,
    wanted: Seq<Seq<char>>,
    list: Seq<char>,
    chosen: Option<Seq<char>>,
    k: int,
    entry: int,
)
    requires
        wanted == split(list, ':'),
        is_choice(entries, Some(list), chosen),
        0 <= k < wanted.len(),
        0 <= entry < entries.len(),
        has_prefix(entries[entry].name@, "renderD"@),
        wanted[k] == "/dev/dri/"@ + entries[entry].name@,
    ensures
        exists|i: int|
            0 <= i <= k && chosen == Some(#[trigger] wanted[i]) && (forall|j: int, e: int|
                0 <= j < i && 0 <= e < entries.len() && has_prefix(
                    (#[trigger] entries[e]).name@,
                    "renderD"@,
                ) ==> #[trigger] wanted[j] != "/dev/dri/"@ + entries[e].name@),
{
    let nodes = render_nodes(entries);
    lemma_render_nodes(entries);
    lemma_first_configured(wanted, nodes);
    reveal_strlit("/dev/dri/");
    assert(entries[entry].is_render_node());
    assert(nodes.contains(entries[entry].node()));
    let m = choose|m: int| 0 <= m < nodes.len() && nodes[m] == entries[entry].node();
    assert(nodes[m].path == wanted[k]);
    assert(has_path(nodes, wanted[k]) && wanted[k].len() > 0);
    let path = first_configured(wanted, nodes)->Some_0;
    let i = choose|i: int|
        0 <= i < wanted.len() && #[trigger] wanted[i] == path && path.len() > 0 && has_path(
            nodes,
            path,
        ) && (forall|j: int|
            0 <= j < i ==> (#[trigger] wanted[j]).len() == 0 || !has_path(nodes, wanted[j]));
    assert(i <= k);
    assert forall|j: int, e: int|
        0 <= j < i && 0 <= e < entries.len() && has_prefix(
            (#[trigger] entries[e]).name@,
            "renderD"@,
        ) implies #[trigger] wanted[j] != "/dev/dri/"@ + entries[e].name@ by {
        if wanted[j] == "/dev/dri/"@ + entries[e].name@ {
            assert(entries[e].is_render_node());
            assert(nodes.contains(entries[e].node()));
            let x = choose|x: int| 0 <= x < nodes.len() && nodes[x] == entries[e].node();
            assert(nodes[x].path == wanted[j]);
            assert(has_path(nodes, wanted[j]));
        }
    }
}

/// A GPU's card is the first entry of its device that is named like one.
pub proof fn law_the_first_card_is_taken(names: Seq<Seq<char>>)
    ensures
        match first_card(names) {
            Some(name) => exists|i: int|
                0 <= i < names.len() && #[trigger] names[i] == name && has_prefix(name, "card"@)
                    && (forall|j: int| 0 <= j < i ==> !has_prefix(#[trigger] names[j], "card"@)),
            None => forall|j: int|
                0 <= j < names.len() ==> !has_prefix(#[trigger] names[j], "card"@),
        },
    decreases names.len(),
{
    if names.len() > 0 && !has_prefix(names[0], "card"@) {
        let rest = names.drop_first();
        law_the_first_card_is_taken(rest);
        match first_card(names) {
            Some(name) => {
                let i = choose|i: int|
                    0 <= i < rest.len() && #[trigger] rest[i] == name && has_prefix(name, "card"@)
                        && (forall|j: int|
                        0 <= j < i ==> !has_prefix(#[trigger] rest[j], "card"@));
                assert(names[i + 1] == name);
                assert forall|j: int| 0 <= j < i + 1 implies !has_prefix(
                    #[trigger] names[j],
                    "card"@,
                ) by {
                    if j > 0 {
                        assert(names[j] == rest[j - 1]);
                    }
                }
            },
            None => {
                assert forall|j: int| 0 <= j < names.len() implies !has_prefix(
                    #[trigger] names[j],
                    "card"@,
                ) by {
                    if j > 0 {
                        assert(names[j] == rest[j - 1]);
                    }
                }
            },
        }
    }
}

/// A link is kept exactly where what it points at is named like the render node or
/// like the card, with its own path and its target.
pub proof fn law_links_of_the_same_gpu_are_kept(
    links: Seq<ByPathLink>,
    render_name: Seq<char>,
    card: Option<Seq<char>>,
    pair: (Seq<char>, Seq<char>),
)
    ensures
        related_links(links, render_name, card).contains(pair) <==> exists|i: int|
            0 <= i < links.len() && pair == ((#[trigger] links[i]).link@, links[i].target@) && (
            links[i].target_name@ == render_name || card == Some(links[i].target_name@)),
    decreases links.len(),
{
    if links.len() > 0 {
        let front = links.drop_last();
        let last = links.last();
        law_links_of_the_same_gpu_are_kept(front, render_name, card, pair);
        let some = related_links(front, render_name, card);
        let all = related_links(links, render_name, card);
        if all.contains(pair) {
            let k = choose|k: int| 0 <= k < all.len() && all[k] == pair;
            if k < some.len() {
                assert(some[k] == pair);
                let i = choose|i: int|
                    0 <= i < front.len() && pair == ((#[trigger] front[i]).link@, front[i].target@)
                        && (front[i].target_name@ == render_name || card
                        == Some(front[i].target_name@));
                assert(links[i] == front[i]);
            } else {
                assert(links[links.len() - 1] == last);
            }
        }
        if exists|i: int|
            0 <= i < links.len() && pair == ((#[trigger] links[i]).link@, links[i].target@) && (
            links[i].target_name@ == render_name || card == Some(links[i].target_name@)) {
            let i = choose|i: int|
                0 <= i < links.len() && pair == ((#[trigger] links[i]).link@, links[i].target@) && (
                links[i].target_name@ == render_name || card == Some(links[i].target_name@));
            if i < front.len() {
                assert(front[i] == links[i]);
                assert(some.contains(pair));
                let k = choose|k: int| 0 <= k < some.len() && some[k] == pair;
                assert(all[k] == pair);
            } else {
                assert(all[some.len() as int] == pair);
            }
        }
    }
}

/// `flag`, `a` and `b` stand next to each other among the arguments.
pub open spec fn binds(args: Seq<Seq<char>>, flag: Seq<char>, a: Seq<char>, b: Seq<char>) -> bool {
    exists|i: int|
        0 <= i < args.len() - 2 && #[trigger] args[i] == flag && args[i + 1] == a && args[i + 2]
            == b
}

proof fn lemma_link_arguments(links: Seq<(Seq<char>, Seq<char>)>, k: int)
    requires
        0 <= k < links.len(),
    ensures
        link_arguments(links).len() == 3 * links.len(),
        link_arguments(links)[3 * k] == "--symlink"@,
        link_arguments(links)[3 * k + 1] == links[k].1,
        link_arguments(links)[3 * k + 2] == links[k].0,
    decreases links.len(),
{
    let front = links.drop_last();
    let some = link_arguments(front);
    if front.len() == 0 {
        assert(some.len() == 0);
    } else {
        lemma_link_arguments(front, 0);
    }
    assert(some.len() == 3 * front.len());
    if k < front.len() {
        lemma_link_arguments(front, k);
        let all = link_arguments(links);
        assert(all[3 * k] == some[3 * k]);
        assert(all[3 * k + 1] == some[3 * k + 1]);
        assert(all[3 * k + 2] == some[3 * k + 2]);
    }
}

/// In the sandbox, the chosen render node stands for itself, and so does the card
/// that belongs to it; every link of the same GPU points at what it points at
/// outside; `/dev/dri` holds nothing before; and what is run in it follows `--`.
pub proof fn law_the_sandbox_shows_one_gpu(
    node: Seq<char>,
    card: Option<Seq<char>>,
    links: Seq<(Seq<char>, Seq<char>)>,
    k: int,
)
    ensures
        ({
            let args = sandbox_arguments(node, card, links);
            &&& args[0] == "bwrap"@ && args.last() == "--"@
            &&& follows(args, "--tmpfs"@, "/dev/dri"@)
            &&& binds(args, "--dev-bind"@, node, node)
            &&& card matches Some(c) ==> binds(args, "--dev-bind"@, c, c)
            &&& 0 <= k < links.len() ==> binds(args, "--symlink"@, links[k].1, links[k].0)
            &&& links.len() > 0 ==> follows(args, "--dir"@, "/dev/dri/by-path"@)
            &&& args.len() == 13 + (if card is Some {
                3int
            } else {
                0
            }) + (if links.len() > 0 {
                2 + 3 * links.len()
            } else {
                0
            })
        }),
{
    let args = sandbox_arguments(node, card, links);
    assert(args[7] == "--tmpfs"@ && args[8] == "/dev/dri"@);
    assert(args[9] == "--dev-bind"@ && args[10] == node && args[11] == node);
    let n: int = if card is Some {
        15
    } else {
        12
    };
    if let Some(c) = card {
        assert(args[12] == "--dev-bind"@ && args[13] == c && args[14] == c);
    }
    if links.len() > 0 {
        lemma_link_arguments(links, 0);
        assert(args[n] == "--dir"@ && args[n + 1] == "/dev/dri/by-path"@);
        if 0 <= k < links.len() {
            lemma_link_arguments(links, k);
            let m = n + 2 + 3 * k;
            assert(args[m] == "--symlink"@ && args[m + 1] == links[k].1 && args[m + 2]
                == links[k].0);
        }
    }
}

/// An operator's list that names no render node that is there changes nothing.
pub proof fn law_a_list_of_missing_nodes_changes_nothing(
    entries: Seq<DriEntry>,
    list: Seq<char>,
    chosen: Option<Seq<char>>,
)
    requires
        is_choice(entries, Some(list), chosen),
        forall|j: int, e: int|
            0 <= j < split(list, ':').len() && 0 <= e < entries.len() && has_prefix(
                (#[trigger] entries[e]).name@,
                "renderD"@,
            ) ==> #[trigger] split(list, ':')[j] != "/dev/dri/"@ + entries[e].name@,
    ensures
        is_choice(entries, None, chosen),
{
    let nodes = render_nodes(entries);
    let wanted = split(list, ':');
    lemma_first_configured(wanted, nodes);
    if let Some(path) = first_configured(wanted, nodes) {
        let i = choose|i: int|
            0 <= i < wanted.len() && #[trigger] wanted[i] == path && path.len() > 0 && has_path(
                nodes,
                path,
            ) && (forall|j: int|
                0 <= j < i ==> (#[trigger] wanted[j]).len() == 0 || !has_path(nodes, wanted[j]));
        let k = choose|k: int| 0 <= k < nodes.len() && (#[trigger] nodes[k]).path == path;
        let e = lemma_node_stands_for(entries, k);
        assert(has_prefix(entries[e].name@, "renderD"@));
        assert(wanted[i] == "/dev/dri/"@ + entries[e].name@);
    }
}

} // verus!
