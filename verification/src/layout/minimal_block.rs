//! A minimal block layout: fixed sizes per render node kind, stacked vertically.
use vstd::prelude::*;
use crate::layout::geometry::{lemma_geometry_model_fields, rect_xywh, UiLayoutGeometryModel, UiLayoutGeometryNode, UiRect};
use crate::renderer::{UiRenderModel, UiRenderNode, UiRenderNodeId, UiRenderNodeKind};

verus! {

/// The block width of a render node kind: elements 100, text 80, others 0.
pub open spec fn minimal_block_width(kind: UiRenderNodeKind) -> u32 {
    match kind {
        UiRenderNodeKind::Element => 100,
        UiRenderNodeKind::Text => 80,
        UiRenderNodeKind::Root | UiRenderNodeKind::Fragment => 0,
    }
}

/// The block height of a render node kind: elements 50, text 20, others 0.
pub open spec fn minimal_block_height(kind: UiRenderNodeKind) -> u32 {
    match kind {
        UiRenderNodeKind::Element => 50,
        UiRenderNodeKind::Text => 20,
        UiRenderNodeKind::Root | UiRenderNodeKind::Fragment => 0,
    }
}

/// `k` is the first position of a render node with identity `id`.
pub open spec fn is_first_render_match(nodes: Seq<UiRenderNode>, id: UiRenderNodeId, k: int) -> bool {
    &&& 0 <= k < nodes.len()
    &&& nodes[k].spec_id() == id
    &&& forall|j: int| 0 <= j < k ==> #[trigger] nodes[j].spec_id() != id
}

/// Some render node has identity `id`.
pub open spec fn render_nodes_contain(nodes: Seq<UiRenderNode>, id: UiRenderNodeId) -> bool {
    exists|k: int| 0 <= k < nodes.len() && #[trigger] nodes[k].spec_id() == id
}

/// The kind of the first render node with identity `id`.
pub open spec fn render_kind_of(nodes: Seq<UiRenderNode>, id: UiRenderNodeId) -> UiRenderNodeKind {
    nodes[choose|k: int| is_first_render_match(nodes, id, k)].spec_kind()
}

/// The top of the block at position `i`: the heights of the blocks before it.
pub open spec fn minimal_block_y(geometry: Seq<UiLayoutGeometryNode>, render: Seq<UiRenderNode>, i: int) -> int
    decreases i,
{
    if i <= 0 {
        0
    } else {
        minimal_block_y(geometry, render, i - 1) + minimal_block_height(
            render_kind_of(render, geometry[i - 1].spec_source_render_node()),
        )
    }
}

/// The block of geometry node `g` at position `i`: its kind's size, at the
/// left edge, below the blocks before it; every other field kept.
pub open spec fn minimal_block_node(s: UiLayoutGeometryNode, g: UiLayoutGeometryNode, geometry: Seq<UiLayoutGeometryNode>, render: Seq<UiRenderNode>, i: int) -> bool {
    let kind = render_kind_of(render, g.spec_source_render_node());
    &&& s.spec_rect() == rect_xywh(0, minimal_block_y(geometry, render, i) as i32, minimal_block_width(kind), minimal_block_height(kind))
    &&& s.spec_id() == g.spec_id()
    &&& s.spec_source_layout_node() == g.spec_source_layout_node()
    &&& s.spec_source_layout_slot() == g.spec_source_layout_slot()
    &&& s.spec_source_render_node() == g.spec_source_render_node()
    &&& s.spec_source_projection_node() == g.spec_source_projection_node()
    &&& s.spec_source_ir_node() == g.spec_source_ir_node()
    &&& s.spec_order() == g.spec_order()
}

/// The first match is the one that `render_kind_of` reads.
proof fn lemma_first_render_match_chosen(nodes: Seq<UiRenderNode>, id: UiRenderNodeId, k: int)
    requires
        is_first_render_match(nodes, id, k),
    ensures
        (choose|c: int| is_first_render_match(nodes, id, c)) == k,
        render_kind_of(nodes, id) == nodes[k].spec_kind(),
{
    let c = choose|c: int| is_first_render_match(nodes, id, c);
    assert(is_first_render_match(nodes, id, c));
    if c < k {
        assert(nodes[c].spec_id() != id);
    }
    if k < c {
        assert(nodes[k].spec_id() != id);
    }
}

/// The height of the whole stack: the heights of all the blocks.
pub open spec fn minimal_stack_height(geometry: Seq<UiLayoutGeometryNode>, render: Seq<UiRenderNode>) -> int {
    minimal_block_y(geometry, render, geometry.len() as int)
}

/// The stack grows with each block: its top at position `i` is no lower
/// than zero and no higher than its top at any later position `j`.
proof fn lemma_minimal_block_y_bounds(geometry: Seq<UiLayoutGeometryNode>, render: Seq<UiRenderNode>, i: int, j: int)
    requires
        0 <= i <= j,
    ensures
        0 <= minimal_block_y(geometry, render, i) <= minimal_block_y(geometry, render, j),
    decreases j,
{
    if j > i {
        lemma_minimal_block_y_bounds(geometry, render, i, j - 1);
    } else if i > 0 {
        lemma_minimal_block_y_bounds(geometry, render, i - 1, i - 1);
    }
}

/// Solves a geometry model with fixed block sizes: an element is 100 by 50,
/// text 80 by 20, anything else 0 by 0; blocks stack downwards from the top,
/// each starting where the one before ended.
pub fn solve_minimal_blocks(geometry_model: &UiLayoutGeometryModel, render_model: &UiRenderModel) -> (r: UiLayoutGeometryModel)
    requires
        minimal_stack_height(geometry_model.spec_nodes(), render_model.spec_nodes()) <= i32::MAX,
        forall|i: int|
            0 <= i < geometry_model.spec_nodes().len() ==> render_nodes_contain(
                render_model.spec_nodes(),
                #[trigger] geometry_model.spec_nodes()[i].spec_source_render_node(),
            ),
    ensures
        r.spec_id() == geometry_model.spec_id(),
        r.spec_source_layout_model() == geometry_model.spec_source_layout_model(),
        r.spec_source_render_model() == geometry_model.spec_source_render_model(),
        r.spec_source_projection() == geometry_model.spec_source_projection(),
        r.spec_source_ir_root() == geometry_model.spec_source_ir_root(),
        r.spec_nodes().len() == geometry_model.spec_nodes().len(),
        forall|i: int|
            #![trigger r.spec_nodes()[i]]
            0 <= i < r.spec_nodes().len() ==> minimal_block_node(
                r.spec_nodes()[i],
                geometry_model.spec_nodes()[i],
                geometry_model.spec_nodes(),
                render_model.spec_nodes(),
                i,
            ),
{
    let geometry_nodes = geometry_model.nodes();
    let render_nodes = render_model.nodes();
    let mut solved_nodes: Vec<UiLayoutGeometryNode> = Vec::with_capacity(geometry_nodes.len());
    let mut current_y: i32 = 0;
    let mut i: usize = 0;
    while i < geometry_nodes.len()
        invariant
            geometry_nodes@ == geometry_model.spec_nodes(),
            render_nodes@ == render_model.spec_nodes(),
            minimal_stack_height(geometry_nodes@, render_nodes@) <= i32::MAX,
            forall|j: int|
                0 <= j < geometry_nodes@.len() ==> render_nodes_contain(
                    render_nodes@,
                    #[trigger] geometry_nodes@[j].spec_source_render_node(),
                ),
            i <= geometry_nodes@.len(),
            current_y == minimal_block_y(geometry_nodes@, render_nodes@, i as int),
            solved_nodes@.len() == i,
            forall|j: int|
                #![trigger solved_nodes@[j]]
                0 <= j < i ==> minimal_block_node(solved_nodes@[j], geometry_nodes@[j], geometry_nodes@, render_nodes@, j),
        decreases geometry_nodes@.len() - i,
    {
        let geometry_node = &geometry_nodes[i];
        let render_node_id = geometry_node.source_render_node();
        assert(render_nodes_contain(render_nodes@, geometry_nodes@[i as int].spec_source_render_node()));
        let mut k: usize = 0;
        while render_nodes[k].id() != render_node_id
            invariant
                render_nodes_contain(render_nodes@, render_node_id),
                exists|m: int| k <= m < render_nodes@.len() && #[trigger] render_nodes@[m].spec_id() == render_node_id,
                forall|j: int| 0 <= j < k ==> #[trigger] render_nodes@[j].spec_id() != render_node_id,
            decreases render_nodes@.len() - k,
        {
            k += 1;
        }
        proof {
            lemma_first_render_match_chosen(render_nodes@, render_node_id, k as int);
            lemma_minimal_block_y_bounds(geometry_nodes@, render_nodes@, i as int, i + 1);
            lemma_minimal_block_y_bounds(geometry_nodes@, render_nodes@, i + 1, geometry_nodes@.len() as int);
        }
        let kind = render_nodes[k].kind();
        let (width, height): (u32, u32) = match kind {
            UiRenderNodeKind::Element => (100, 50),
            UiRenderNodeKind::Text => (80, 20),
            UiRenderNodeKind::Root | UiRenderNodeKind::Fragment => (0, 0),
        };
        let rect = UiRect::from_xywh(0, current_y, width, height);
        if height > 0 {
            current_y += height as i32;
        }
        solved_nodes.push(geometry_node.with_rect(rect));
        i += 1;
    }
    let solved = UiLayoutGeometryModel {
        id: geometry_model.id(),
        source_layout_model: geometry_model.source_layout_model(),
        source_render_model: geometry_model.source_render_model(),
        source_projection: geometry_model.source_projection(),
        source_ir_root: geometry_model.source_ir_root(),
        nodes: solved_nodes,
    };
    proof {
        lemma_geometry_model_fields(solved);
    }
    solved
}

/// Solved blocks stack: every block starts at the left edge, the first at the
/// top, and each one where the block before it ends.
pub proof fn lemma_minimal_blocks_stack(
    solved: Seq<UiLayoutGeometryNode>,
    geometry: Seq<UiLayoutGeometryNode>,
    render: Seq<UiRenderNode>,
)
    requires
        solved.len() == geometry.len(),
        minimal_stack_height(geometry, render) <= i32::MAX,
        forall|j: int|
            #![trigger solved[j]]
            0 <= j < solved.len() ==> minimal_block_node(solved[j], geometry[j], geometry, render, j),
    ensures
        forall|i: int| #![trigger solved[i]] 0 <= i < solved.len() ==> solved[i].spec_rect().origin.x == 0,
        solved.len() > 0 ==> solved[0].spec_rect().origin.y == 0,
        forall|i: int|
            #![trigger solved[i + 1]]
            0 <= i && i + 1 < solved.len() ==> solved[i + 1].spec_rect().origin.y == solved[i].spec_rect().origin.y
                + solved[i].spec_rect().size.height,
{
    assert forall|i: int| 0 <= i && i + 1 < solved.len() implies #[trigger] solved[i + 1].spec_rect().origin.y
        == solved[i].spec_rect().origin.y + solved[i].spec_rect().size.height by {
        lemma_minimal_block_y_bounds(geometry, render, i, i + 1);
        lemma_minimal_block_y_bounds(geometry, render, i + 1, geometry.len() as int);
        assert(minimal_block_node(solved[i], geometry[i], geometry, render, i));
        assert(minimal_block_node(solved[i + 1], geometry[i + 1], geometry, render, i + 1));
    }
}

} // verus!
