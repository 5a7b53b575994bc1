//! The fullscreen surface that covers an output, and how it is scanned out.
use crate::color::{ImageDescription, Primaries, ScanoutPlan, ScanoutTarget};
use vstd::prelude::*;

verus! {

/// A fullscreen surface and what is known of its content. Surfaces are named by
/// an id.
#[derive(Debug, Clone, Copy, PartialEq, Eq, Structural)]
pub struct FullscreenOccupied {
    pub surface: u64,
    pub prefers_async: bool,
    pub is_hdr: bool,
    pub is_yuv: bool,
    pub color_description: Option<ImageDescription>,
    pub scanout_plan: ScanoutPlan,
}

impl FullscreenOccupied {
    /// A surface that was just found to cover an output.
    pub fn new(
        surface: u64,
        prefers_async: bool,
        is_hdr: bool,
        is_yuv: bool,
        color_description: Option<ImageDescription>,
    ) -> (occupied: FullscreenOccupied)
        ensures
            occupied == (FullscreenOccupied {
                surface,
                prefers_async,
                is_hdr,
                is_yuv,
                color_description,
                scanout_plan: ScanoutPlan::DirectPassthrough,
            }),
    {
        FullscreenOccupied {
            surface,
            prefers_async,
            is_hdr,
            is_yuv,
            color_description,
            scanout_plan: ScanoutPlan::DirectPassthrough,
        }
    }

    /// How the surface is scanned out.
    pub fn effective_scanout_plan(&self) -> (plan: ScanoutPlan)
        ensures
            plan == self.scanout_plan,
    {
        self.scanout_plan
    }

    /// Whether the surface asks for tearing presentation.
    pub fn tearing(&self) -> (tearing: bool)
        ensures
            tearing == self.prefers_async,
    {
        self.prefers_async
    }

    /// Whether the surface is HDR.
    pub fn is_hdr(&self) -> (hdr: bool)
        ensures
            hdr == self.is_hdr,
    {
        self.is_hdr
    }
}

/// One surface of a surface tree.
#[derive(Debug, Clone, Copy, PartialEq, Eq, Structural)]
pub struct TreeSurface {
    pub prefers_async: bool,
    pub description: Option<ImageDescription>,
    /// Whether the renderer holds a YCbCr buffer, where it can be asked.
    pub renderer_is_ycbcr: Option<bool>,
    /// Whether the newly attached buffer is a YCbCr dmabuf.
    pub new_buffer_is_ycbcr: bool,
}

impl TreeSurface {
    /// Whether the surface shows a YCbCr buffer.
    pub open spec fn is_yuv(self) -> bool {
        self.renderer_is_ycbcr == Some(true) || self.new_buffer_is_ycbcr
    }

    /// Whether the surface is PQ-encoded.
    pub open spec fn is_hdr(self) -> bool {
        self.description matches Some(description) && description.pq_bt2020()
    }
}

/// Whether any surface in the tree asked for tearing presentation.
pub fn surface_tree_prefers_async(tree: &Vec<TreeSurface>) -> (found: bool)
    ensures
        found == exists|i: int| 0 <= i < tree.len() && (#[trigger] tree[i]).prefers_async,
{
    for i in 0..tree.len()
        invariant
            forall|j: int| 0 <= j < i ==> !(#[trigger] tree[j]).prefers_async,
    {
        if tree[i].prefers_async {
            return true;
        }
    }
    false
}

/// The first description in the tree from `from` on.
pub open spec fn first_description(tree: Seq<TreeSurface>, from: int) -> Option<ImageDescription>
    decreases tree.len() - from,
{
    if from < 0 || from >= tree.len() {
        None
    } else if tree[from].description is Some {
        tree[from].description
    } else {
        first_description(tree, from + 1)
    }
}

/// The first description in the tree.
pub fn surface_tree_color_description(tree: &Vec<TreeSurface>) -> (description: Option<
    ImageDescription,
>)
    ensures
        description == first_description(tree@, 0),
{
    let mut i: usize = 0;
    while i < tree.len()
        invariant
            i <= tree.len(),
            first_description(tree@, 0) == first_description(tree@, i as int),
        decreases tree.len() - i,
    {
        if tree[i].description.is_some() {
            return tree[i].description;
        }
        i = i + 1;
    }
    None
}

/// Whether any surface in the tree is PQ-encoded.
pub fn surface_tree_is_hdr(tree: &Vec<TreeSurface>) -> (found: bool)
    ensures
        found == exists|i: int| 0 <= i < tree.len() && (#[trigger] tree[i]).is_hdr(),
{
    for i in 0..tree.len()
        invariant
            forall|j: int| 0 <= j < i ==> !(#[trigger] tree[j]).is_hdr(),
    {
        if let Some(description) = tree[i].description {
            if description.is_pq_bt2020() {
                assert(tree[i as int].is_hdr());
                return true;
            }
        }
    }
    false
}

/// Whether any surface in the tree shows a YCbCr buffer.
pub fn surface_tree_is_yuv(tree: &Vec<TreeSurface>) -> (found: bool)
    ensures
        found == exists|i: int| 0 <= i < tree.len() && (#[trigger] tree[i]).is_yuv(),
{
    for i in 0..tree.len()
        invariant
            forall|j: int| 0 <= j < i ==> !(#[trigger] tree[j]).is_yuv(),
    {
        let in_renderer: bool = match tree[i].renderer_is_ycbcr {
            Some(ycbcr) => ycbcr,
            None => false,
        };
        if in_renderer || tree[i].new_buffer_is_ycbcr {
            assert(tree[i as int].is_yuv());
            return true;
        }
    }
    false
}

/// What is remembered of the surface that covers an output. The surface may be
/// gone meanwhile.
#[derive(Debug, Clone, Copy, PartialEq, Eq, Structural)]
pub struct OccupiedEntry {
    pub surface: u64,
    pub prefers_async: bool,
    pub is_hdr: bool,
    pub is_yuv: bool,
    /// The description as the client set it.
    pub raw_color_description: Option<ImageDescription>,
    /// The description that was used, remapped to the sink's peak.
    pub color_description: Option<ImageDescription>,
    /// The sink's peak when the plan was made.
    pub cached_peak: Option<u32>,
    /// The reference white when the plan was made.
    pub cached_ref_white: u32,
    pub scanout_plan: ScanoutPlan,
}

/// Asks for a description to be remapped to a sink.
#[derive(Debug, Clone, Copy, PartialEq, Eq, Structural)]
pub struct RemapRequest {
    pub description: ImageDescription,
    pub peak: u32,
    pub reference_white: u32,
}

/// Asks how a surface can be scanned out.
#[derive(Debug, Clone, Copy, PartialEq, Eq, Structural)]
pub struct ScanoutQuery {
    pub raw_color_description: Option<ImageDescription>,
    pub remap: Option<RemapRequest>,
    pub is_yuv: bool,
    pub target: ScanoutTarget,
}

/// What a surface's content has to be remapped to: PQ content on an HDR output
/// with a known peak, where remapping is on.
pub open spec fn remap_for(
    description: Option<ImageDescription>,
    target: ScanoutTarget,
    remap_metadata: bool,
) -> Option<RemapRequest> {
    match (description, target.peak_luminance) {
        (Some(desc), Some(peak)) if remap_metadata && target.hdr_enabled && desc.pq_bt2020() => Some(
            RemapRequest {
                description: desc,
                peak: peak as u32,
                reference_white: target.reference_white as u32,
            },
        ),
        _ => None,
    }
}

/// The sink's peak, as it is remembered.
pub open spec fn peak_of(target: ScanoutTarget) -> Option<u32> {
    match target.peak_luminance {
        Some(peak) => Some(peak as u32),
        None => None,
    }
}

impl ScanoutQuery {
    /// The query for a surface with this content on an output.
    pub open spec fn for_content(
        description: Option<ImageDescription>,
        is_yuv: bool,
        target: ScanoutTarget,
        remap_metadata: bool,
    ) -> ScanoutQuery {
        ScanoutQuery {
            raw_color_description: description,
            remap: remap_for(description, target, remap_metadata),
            is_yuv,
            target,
        }
    }

    /// The query for a surface with this content on an output.
    pub fn new(
        description: Option<ImageDescription>,
        is_yuv: bool,
        target: ScanoutTarget,
        remap_metadata: bool,
    ) -> (query: ScanoutQuery)
        ensures
            query == ScanoutQuery::for_content(description, is_yuv, target, remap_metadata),
    {
        let mut remap: Option<RemapRequest> = None;
        if remap_metadata && target.hdr_enabled {
            if let Some(desc) = description {
                if let Some(peak) = target.peak_luminance {
                    if desc.is_pq_bt2020() {
                        remap =
                        Some(
                            RemapRequest {
                                description: desc,
                                peak: peak as u32,
                                reference_white: target.reference_white as u32,
                            },
                        );
                    }
                }
            }
        }
        ScanoutQuery { raw_color_description: description, remap, is_yuv, target }
    }

    /// The description to plan with, given what a requested remapping gave.
    pub open spec fn planned_description(self, remapped: ImageDescription) -> Option<
        ImageDescription,
    > {
        if self.remap is Some {
            Some(remapped)
        } else {
            self.raw_color_description
        }
    }

    /// The description to plan with. `remapped` is what the requested remapping
    /// gave; it is not used where none was requested.
    pub fn color_description(&self, remapped: ImageDescription) -> (description: Option<
        ImageDescription,
    >)
        ensures
            description == self.planned_description(remapped),
    {
        if self.remap.is_some() {
            Some(remapped)
        } else {
            self.raw_color_description
        }
    }
}

/// What setting the fullscreen surface of an output comes to.
#[derive(Debug, Clone, Copy, PartialEq, Eq, Structural)]
pub enum OccupiedUpdate {
    /// Nothing changed.
    Keep,
    /// No surface covers the output any more.
    Clear,
    /// A plan has to be made for the surface.
    Plan(ScanoutQuery),
}

/// The surface that covers an output, if there is one.
#[derive(Debug, Clone, Copy, PartialEq, Eq, Structural)]
pub struct FullscreenState {
    pub entry: Option<OccupiedEntry>,
}

impl FullscreenState {
    /// An output that no surface covers.
    pub fn new() -> (state: FullscreenState)
        ensures
            state.entry is None,
    {
        FullscreenState { entry: None }
    }

    /// Whether `next` differs from what is remembered. `alive` says whether the
    /// remembered surface still exists.
    pub open spec fn differs(self, alive: bool, next: Option<FullscreenOccupied>) -> bool {
        match (self.entry, next) {
            (Some(current), Some(next)) => !alive || current.surface != next.surface
                || current.is_hdr != next.is_hdr || current.prefers_async != next.prefers_async
                || current.color_description != next.color_description,
            (None, None) => false,
            _ => true,
        }
    }

    /// The description of a surface: its own, or else the one of its tree.
    pub open spec fn content_description(
        next: FullscreenOccupied,
        tree_description: Option<ImageDescription>,
    ) -> Option<ImageDescription> {
        if next.color_description is Some {
            next.color_description
        } else {
            tree_description
        }
    }

    /// Decides what setting the fullscreen surface comes to.
    /// `tree_description` and `tree_is_yuv` are read from the surface's tree.
    pub fn set_fullscreen_occupied(
        &self,
        alive: bool,
        next: Option<FullscreenOccupied>,
        tree_description: Option<ImageDescription>,
        tree_is_yuv: bool,
        target: ScanoutTarget,
        remap_metadata: bool,
    ) -> (update: OccupiedUpdate)
        ensures
            update == if !self.differs(alive, next) {
                OccupiedUpdate::Keep
            } else {
                match next {
                    None => OccupiedUpdate::Clear,
                    Some(occupied) => OccupiedUpdate::Plan(
                        ScanoutQuery::for_content(
                            FullscreenState::content_description(occupied, tree_description),
                            tree_is_yuv,
                            target,
                            remap_metadata,
                        ),
                    ),
                }
            },
    {
        match next {
            None => if self.entry.is_none() {
                OccupiedUpdate::Keep
            } else {
                OccupiedUpdate::Clear
            },
            Some(occupied) => {
                if let Some(current) = self.entry {
                    if alive && current.surface == occupied.surface && current.is_hdr
                        == occupied.is_hdr && current.prefers_async == occupied.prefers_async
                        && same_description(
                        current.color_description,
                        occupied.color_description,
                    ) {
                        return OccupiedUpdate::Keep;
                    }
                }
                let description: Option<ImageDescription> = if occupied.color_description.is_some() {
                    occupied.color_description
                } else {
                    tree_description
                };
                OccupiedUpdate::Plan(
                    ScanoutQuery::new(description, tree_is_yuv, target, remap_metadata),
                )
            },
        }
    }

    /// Forgets the fullscreen surface.
    pub fn clear(&mut self)
        ensures
            final(self).entry is None,
    {
        self.entry = None;
    }

    /// Remembers a fullscreen surface with the plan that was made for it.
    pub fn occupy(
        &mut self,
        next: FullscreenOccupied,
        query: ScanoutQuery,
        color_description: Option<ImageDescription>,
        plan: ScanoutPlan,
    )
        ensures
            final(self).entry == Some(planned_entry(next, query, color_description, plan)),
    {
        self.entry =
        Some(
            OccupiedEntry {
                surface: next.surface,
                prefers_async: next.prefers_async,
                is_hdr: next.is_hdr,
                is_yuv: query.is_yuv,
                raw_color_description: query.raw_color_description,
                color_description,
                cached_peak: match query.target.peak_luminance {
                    Some(peak) => Some(peak as u32),
                    None => None,
                },
                cached_ref_white: query.target.reference_white as u32,
                scanout_plan: plan,
            },
        );
    }

    /// The surface that covers the output, if it still exists.
    pub fn is_foreground_fullscreen_occupied(&self, alive: bool) -> (occupied: Option<
        FullscreenOccupied,
    >)
        ensures
            occupied == match self.entry {
                Some(entry) if alive => Some(
                    FullscreenOccupied {
                        surface: entry.surface,
                        prefers_async: entry.prefers_async,
                        is_hdr: entry.is_hdr,
                        is_yuv: entry.is_yuv,
                        color_description: entry.color_description,
                        scanout_plan: entry.scanout_plan,
                    },
                ),
                _ => None,
            },
    {
        match self.entry {
            Some(entry) => if alive {
                Some(
                    FullscreenOccupied {
                        surface: entry.surface,
                        prefers_async: entry.prefers_async,
                        is_hdr: entry.is_hdr,
                        is_yuv: entry.is_yuv,
                        color_description: entry.color_description,
                        scanout_plan: entry.scanout_plan,
                    },
                )
            } else {
                None
            },
            None => None,
        }
    }

    /// Whether what is remembered is still what the surface and the output show.
    pub open spec fn is_up_to_date(
        self,
        prefers_async: bool,
        description: Option<ImageDescription>,
        is_yuv: bool,
        target: ScanoutTarget,
    ) -> bool {
        self.entry matches Some(entry) && entry.prefers_async == prefers_async
            && entry.raw_color_description == description && entry.is_yuv == is_yuv
            && entry.cached_peak == peak_of(target) && entry.cached_ref_white
            == target.reference_white
    }

    /// Looks at the remembered surface again: where its content or the output
    /// changed, a new plan has to be made.
    pub fn refresh_fullscreen_occupied_flags(
        &self,
        alive: bool,
        prefers_async: bool,
        description: Option<ImageDescription>,
        is_yuv: bool,
        target: ScanoutTarget,
        remap_metadata: bool,
    ) -> (query: Option<ScanoutQuery>)
        ensures
            query == if self.entry is None || !alive || self.is_up_to_date(
                prefers_async,
                description,
                is_yuv,
                target,
            ) {
                None
            } else {
                Some(ScanoutQuery::for_content(description, is_yuv, target, remap_metadata))
            },
    {
        let entry: OccupiedEntry = match self.entry {
            Some(entry) => entry,
            None => {
                return None;
            },
        };
        if !alive {
            return None;
        }
        let same_peak: bool = match (entry.cached_peak, target.peak_luminance) {
            (Some(cached), Some(peak)) => cached == peak as u32,
            (None, None) => true,
            _ => false,
        };
        if entry.prefers_async == prefers_async && same_description(
            entry.raw_color_description,
            description,
        ) && entry.is_yuv == is_yuv && same_peak && entry.cached_ref_white
            == target.reference_white as u32 {
            return None;
        }
        Some(ScanoutQuery::new(description, is_yuv, target, remap_metadata))
    }

    /// Remembers the new plan of a surface that was looked at again, unless the
    /// output meanwhile shows another one.
    pub fn refresh(
        &mut self,
        alive: bool,
        surface: u64,
        prefers_async: bool,
        query: ScanoutQuery,
        color_description: Option<ImageDescription>,
        plan: ScanoutPlan,
    )
        ensures
            final(self).entry == match old(self).entry {
                Some(entry) if alive && entry.surface == surface => Some(
                    OccupiedEntry {
                        prefers_async,
                        is_yuv: query.is_yuv,
                        raw_color_description: query.raw_color_description,
                        color_description,
                        cached_peak: peak_of(query.target),
                        cached_ref_white: query.target.reference_white as u32,
                        scanout_plan: plan,
                        ..entry
                    },
                ),
                other => other,
            },
    {
        if let Some(entry) = self.entry {
            if alive && entry.surface == surface {
                self.entry =
                Some(
                    OccupiedEntry {
                        prefers_async,
                        is_yuv: query.is_yuv,
                        raw_color_description: query.raw_color_description,
                        color_description,
                        cached_peak: match query.target.peak_luminance {
                            Some(peak) => Some(peak as u32),
                            None => None,
                        },
                        cached_ref_white: query.target.reference_white as u32,
                        scanout_plan: plan,
                        ..entry
                    },
                );
            }
        }
    }

    /// Replaces the plan of the remembered surface.
    pub fn set_fullscreen_scanout_plan(&mut self, plan: ScanoutPlan)
        ensures
            final(self).entry == match old(self).entry {
                Some(entry) => Some(OccupiedEntry { scanout_plan: plan, ..entry }),
                None => None,
            },
    {
        if let Some(entry) = self.entry {
            self.entry = Some(OccupiedEntry { scanout_plan: plan, ..entry });
        }
    }
}

fn same_description(a: Option<ImageDescription>, b: Option<ImageDescription>) -> (same: bool)
    ensures
        same == (a == b),
{
    match (a, b) {
        (Some(a), Some(b)) => a == b,
        (None, None) => true,
        _ => false,
    }
}

/// The entry that is remembered when a plan was made.
pub open spec fn planned_entry(
    next: FullscreenOccupied,
    query: ScanoutQuery,
    color_description: Option<ImageDescription>,
    plan: ScanoutPlan,
) -> OccupiedEntry {
    OccupiedEntry {
        surface: next.surface,
        prefers_async: next.prefers_async,
        is_hdr: next.is_hdr,
        is_yuv: query.is_yuv,
        raw_color_description: query.raw_color_description,
        color_description,
        cached_peak: peak_of(query.target),
        cached_ref_white: query.target.reference_white as u32,
        scanout_plan: plan,
    }
}

/// Once a plan was made, looking at the same surface on the same output again
/// makes no new plan.
pub proof fn lemma_refresh_is_idempotent(
    next: FullscreenOccupied,
    description: Option<ImageDescription>,
    is_yuv: bool,
    target: ScanoutTarget,
    remap_metadata: bool,
    color_description: Option<ImageDescription>,
    plan: ScanoutPlan,
)
    ensures
        (FullscreenState {
            entry: Some(
                planned_entry(
                    next,
                    ScanoutQuery::for_content(description, is_yuv, target, remap_metadata),
                    color_description,
                    plan,
                ),
            ),
        }).is_up_to_date(next.prefers_async, description, is_yuv, target),
{
}

/// A surface whose description needs no remapping is remembered as it is: set
/// again while it is alive, it changes nothing.
pub proof fn lemma_set_is_idempotent(
    next: FullscreenOccupied,
    is_yuv: bool,
    target: ScanoutTarget,
    remap_metadata: bool,
    remapped: ImageDescription,
    plan: ScanoutPlan,
)
    requires
        next.color_description is Some,
        remap_for(next.color_description, target, remap_metadata) is None,
    ensures
        ({
            let query = ScanoutQuery::for_content(
                next.color_description,
                is_yuv,
                target,
                remap_metadata,
            );
            let entry = planned_entry(next, query, query.planned_description(remapped), plan);
            !(FullscreenState { entry: Some(entry) }).differs(true, Some(next))
        }),
{
}

/// Metadata is only ever remapped for PQ content on an HDR output.
pub proof fn lemma_remap_needs_hdr(
    description: Option<ImageDescription>,
    target: ScanoutTarget,
    remap_metadata: bool,
)
    ensures
        remap_for(description, target, remap_metadata) matches Some(request) ==> {
            &&& target.hdr_enabled
            &&& request.description.pq_bt2020()
            &&& description == Some(request.description)
            &&& Some(request.peak) == peak_of(target)
        },
{
}

/// Setting the fullscreen surface changes nothing only where the remembered surface
/// is that very surface, still alive, with the same range, tearing preference and
/// description, or where there is none before and after. Another surface is always
/// planned for, with its own description or else that of its tree.
pub proof fn lemma_another_surface_is_planned(
    state: FullscreenState,
    alive: bool,
    next: Option<FullscreenOccupied>,
    tree_description: Option<ImageDescription>,
    tree_is_yuv: bool,
    target: ScanoutTarget,
    remap_metadata: bool,
    update: OccupiedUpdate,
)
    requires
        call_ensures(
            FullscreenState::set_fullscreen_occupied,
            (&state, alive, next, tree_description, tree_is_yuv, target, remap_metadata),
            update,
        ),
    ensures
        next is None && state.entry is None ==> update is Keep,
        next is None && state.entry is Some ==> update is Clear,
        update is Clear ==> next is None,
        next is Some && state.entry is None ==> update is Plan,
        next is Some && !alive ==> update is Plan,
        state.entry matches Some(entry) ==> (next matches Some(occupied) ==> {
            &&& entry.surface != occupied.surface ==> update is Plan
            &&& entry.is_hdr != occupied.is_hdr ==> update is Plan
            &&& entry.prefers_async != occupied.prefers_async ==> update is Plan
            &&& entry.color_description != occupied.color_description ==> update is Plan
            &&& alive && entry.surface == occupied.surface && entry.is_hdr == occupied.is_hdr
                && entry.prefers_async == occupied.prefers_async && entry.color_description
                == occupied.color_description ==> update is Keep
        }),
        update matches OccupiedUpdate::Plan(query) ==> {
            &&& next matches Some(occupied) && (occupied.color_description is Some
                ==> query.raw_color_description == occupied.color_description) && (
            occupied.color_description is None ==> query.raw_color_description == tree_description)
            &&& query.is_yuv == tree_is_yuv
            &&& query.target == target
            &&& query.remap is Some ==> remap_metadata
        },
{
}

/// After any update that is applied, the remembered surface is the one that was set,
/// as it prefers to be presented and with the plan that was made for it; and none is
/// remembered where none was set.
pub proof fn lemma_set_surface_is_remembered(
    before: FullscreenState,
    alive: bool,
    next: Option<FullscreenOccupied>,
    tree_description: Option<ImageDescription>,
    tree_is_yuv: bool,
    target: ScanoutTarget,
    remap_metadata: bool,
    update: OccupiedUpdate,
    state: &mut FullscreenState,
    color_description: Option<ImageDescription>,
    plan: ScanoutPlan,
)
    requires
        *old(state) == before,
        call_ensures(
            FullscreenState::set_fullscreen_occupied,
            (&before, alive, next, tree_description, tree_is_yuv, target, remap_metadata),
            update,
        ),
        match update {
            OccupiedUpdate::Keep => *final(state) == before,
            OccupiedUpdate::Clear => call_ensures(FullscreenState::clear, (state,), ()),
            OccupiedUpdate::Plan(query) => next matches Some(occupied) && call_ensures(
                FullscreenState::occupy,
                (state, occupied, query, color_description, plan),
                (),
            ),
        },
    ensures
        next is None <==> final(state).entry is None,
        next matches Some(occupied) ==> (final(state).entry matches Some(entry) && entry.surface
            == occupied.surface && entry.is_hdr == occupied.is_hdr && entry.prefers_async
            == occupied.prefers_async),
        update is Plan ==> (final(state).entry matches Some(entry) && entry.scanout_plan == plan
            && entry.color_description == color_description && entry.is_yuv == tree_is_yuv
            && entry.cached_ref_white == target.reference_white),
{
}

/// What covers the output is the remembered surface, as it was remembered, as long
/// as it is alive.
pub proof fn lemma_remembered_surface_is_found(
    state: FullscreenState,
    alive: bool,
    found: Option<FullscreenOccupied>,
)
    requires
        call_ensures(
            FullscreenState::is_foreground_fullscreen_occupied,
            (&state, alive),
            found,
        ),
    ensures
        found is Some <==> alive && state.entry is Some,
        found matches Some(occupied) ==> (state.entry matches Some(entry) && occupied.surface
            == entry.surface && occupied.prefers_async == entry.prefers_async && occupied.is_hdr
            == entry.is_hdr && occupied.is_yuv == entry.is_yuv && occupied.color_description
            == entry.color_description && occupied.scanout_plan == entry.scanout_plan),
{
}

/// A remembered surface is planned for again exactly when it is alive and something
/// that its plan was made from changed: the tearing preference, the description, the
/// encoding of its buffer, or the output's peak or reference white.
pub proof fn lemma_changed_surface_is_planned_again(
    state: FullscreenState,
    alive: bool,
    prefers_async: bool,
    description: Option<ImageDescription>,
    is_yuv: bool,
    target: ScanoutTarget,
    remap_metadata: bool,
    query: Option<ScanoutQuery>,
)
    requires
        call_ensures(
            FullscreenState::refresh_fullscreen_occupied_flags,
            (&state, alive, prefers_async, description, is_yuv, target, remap_metadata),
            query,
        ),
    ensures
        !alive ==> query is None,
        state.entry is None ==> query is None,
        alive ==> (state.entry matches Some(entry) ==> {
            &&& entry.prefers_async != prefers_async ==> query is Some
            &&& entry.raw_color_description != description ==> query is Some
            &&& entry.is_yuv != is_yuv ==> query is Some
            &&& entry.cached_ref_white != target.reference_white ==> query is Some
            &&& (entry.cached_peak is Some) != (target.peak_luminance is Some) ==> query is Some
            &&& entry.cached_peak matches Some(cached) ==> (target.peak_luminance matches Some(
                peak,
            ) ==> (cached != peak ==> query is Some))
            &&& entry.prefers_async == prefers_async && entry.raw_color_description == description
                && entry.is_yuv == is_yuv && entry.cached_ref_white == target.reference_white && (
            entry.cached_peak is None && target.peak_luminance is None || (
            entry.cached_peak matches Some(cached) && target.peak_luminance matches Some(peak)
                && cached == peak)) ==> query is None
        }),
        query matches Some(query) ==> query.raw_color_description == description && query.is_yuv
            == is_yuv && query.target == target,
{
}

/// A new plan goes to the surface that it was made for and to no other, and leaves
/// its id and range as they are.
pub proof fn lemma_refresh_is_for_its_surface(
    state: &mut FullscreenState,
    alive: bool,
    surface: u64,
    prefers_async: bool,
    query: ScanoutQuery,
    color_description: Option<ImageDescription>,
    plan: ScanoutPlan,
)
    requires
        call_ensures(
            FullscreenState::refresh,
            (state, alive, surface, prefers_async, query, color_description, plan),
            (),
        ),
    ensures
        !alive ==> *final(state) == *old(state),
        old(state).entry is None <==> final(state).entry is None,
        old(state).entry matches Some(before) ==> (final(state).entry matches Some(after)
            && after.surface == before.surface && after.is_hdr == before.is_hdr),
        old(state).entry matches Some(before) ==> (before.surface != surface ==> *final(state)
            == *old(state)),
        alive ==> (final(state).entry matches Some(after) ==> (after.surface == surface ==> {
            &&& after.scanout_plan == plan
            &&& after.prefers_async == prefers_async
            &&& after.is_yuv == query.is_yuv
            &&& after.raw_color_description == query.raw_color_description
            &&& after.color_description == color_description
            &&& after.cached_ref_white == query.target.reference_white
            &&& after.cached_peak is Some <==> query.target.peak_luminance is Some
            &&& after.cached_peak matches Some(cached) ==> (
            query.target.peak_luminance matches Some(peak) && cached == peak)
        })),
{
}

/// Replacing the plan of the remembered surface changes nothing else of it.
pub proof fn lemma_replaced_plan(state: &mut FullscreenState, plan: ScanoutPlan)
    requires
        call_ensures(FullscreenState::set_fullscreen_scanout_plan, (state, plan), ()),
    ensures
        old(state).entry is None ==> final(state).entry is None,
        old(state).entry matches Some(before) ==> final(state).entry == Some(
            OccupiedEntry { scanout_plan: plan, ..before },
        ),
{
}

/// PQ content is remapped on an HDR output with a known peak exactly where that is
/// asked for, to that peak and the output's reference white; anything else is
/// planned with as it is.
pub proof fn lemma_remapping(
    description: Option<ImageDescription>,
    is_yuv: bool,
    target: ScanoutTarget,
    remap_metadata: bool,
    query: ScanoutQuery,
    remapped: ImageDescription,
    planned: Option<ImageDescription>,
)
    requires
        call_ensures(ScanoutQuery::new, (description, is_yuv, target, remap_metadata), query),
        call_ensures(ScanoutQuery::color_description, (&query, remapped), planned),
    ensures
        query.raw_color_description == description,
        query.is_yuv == is_yuv,
        query.target == target,
        query.remap is Some <==> remap_metadata && target.hdr_enabled && target.peak_luminance is Some
            && (description matches Some(desc) && desc.transfer is St2084Pq && desc.primaries.named
            == Some(Primaries::Bt2020)),
        query.remap matches Some(request) ==> {
            &&& description == Some(request.description)
            &&& target.peak_luminance matches Some(peak) && request.peak == peak
            &&& request.reference_white == target.reference_white
            &&& planned == Some(remapped)
        },
        query.remap is None ==> planned == description,
{
}

/// A surface tree prefers tearing, is HDR or is YCbCr exactly when some surface in it
/// is; and its description is the first that a surface in it has.
pub proof fn lemma_tree_is_what_its_surfaces_are(
    tree: &Vec<TreeSurface>,
    prefers_async: bool,
    hdr: bool,
    yuv: bool,
    description: Option<ImageDescription>,
    i: int,
)
    requires
        call_ensures(surface_tree_prefers_async, (tree,), prefers_async),
        call_ensures(surface_tree_is_hdr, (tree,), hdr),
        call_ensures(surface_tree_is_yuv, (tree,), yuv),
        call_ensures(surface_tree_color_description, (tree,), description),
        0 <= i < tree.len(),
    ensures
        tree[i].prefers_async ==> prefers_async,
        tree[i].new_buffer_is_ycbcr || tree[i].renderer_is_ycbcr == Some(true) ==> yuv,
        (tree[i].description matches Some(desc) && desc.transfer is St2084Pq && desc.primaries.named
            == Some(Primaries::Bt2020)) ==> hdr,
        (forall|j: int| 0 <= j < tree.len() ==> !(#[trigger] tree[j]).prefers_async)
            ==> !prefers_async,
        (forall|j: int|
            0 <= j < tree.len() ==> !(#[trigger] tree[j]).new_buffer_is_ycbcr
                && tree[j].renderer_is_ycbcr != Some(true)) ==> !yuv,
        (forall|j: int| 0 <= j < tree.len() ==> (#[trigger] tree[j]).description is None) ==> !hdr
            && description is None,
        tree[i].description is Some && (forall|j: int|
            0 <= j < i ==> (#[trigger] tree[j]).description is None) ==> description
            == tree[i].description,
{
    if tree[i].description matches Some(desc) && desc.transfer is St2084Pq && desc.primaries.named
        == Some(Primaries::Bt2020) {
        assert(tree[i].is_hdr());
    }
    if tree[i].new_buffer_is_ycbcr || tree[i].renderer_is_ycbcr == Some(true) {
        assert(tree[i].is_yuv());
    }
    lemma_first_description(tree@, 0, i);
}

proof fn lemma_first_description(tree: Seq<TreeSurface>, from: int, i: int)
    requires
        0 <= from <= tree.len(),
    ensures
        from <= i < tree.len() && tree[i].description is Some && (forall|j: int|
            from <= j < i ==> (#[trigger] tree[j]).description is None) ==> first_description(
            tree,
            from,
        ) == tree[i].description,
        (forall|j: int| from <= j < tree.len() ==> (#[trigger] tree[j]).description is None)
            ==> first_description(tree, from) is None,
    decreases tree.len() - from,
{
    if from < tree.len() && tree[from].description is None {
        lemma_first_description(tree, from + 1, i);
    }
}

/// A surface that was just found to cover an output is remembered as it is, to be scanned
/// out as it is until a plan says otherwise; and what is known of it can be asked.
pub proof fn lemma_found_surface(
    surface: u64,
    prefers_async: bool,
    is_hdr: bool,
    is_yuv: bool,
    description: Option<ImageDescription>,
    occupied: FullscreenOccupied,
    plan: ScanoutPlan,
    tears: bool,
    hdr: bool,
    state: FullscreenState,
)
    requires
        call_ensures(
            FullscreenOccupied::new,
            (surface, prefers_async, is_hdr, is_yuv, description),
            occupied,
        ),
        call_ensures(FullscreenOccupied::effective_scanout_plan, (&occupied,), plan),
        call_ensures(FullscreenOccupied::tearing, (&occupied,), tears),
        call_ensures(FullscreenOccupied::is_hdr, (&occupied,), hdr),
        call_ensures(FullscreenState::new, (), state),
    ensures
        occupied.surface == surface,
        occupied.is_yuv == is_yuv,
        occupied.color_description == description,
        plan is DirectPassthrough && plan == occupied.scanout_plan,
        tears == prefers_async,
        hdr == is_hdr,
        state.entry is None,
{
}

/// A tree is HDR only where a surface in it is PQ with BT.2020 primaries.
pub proof fn lemma_hdr_tree_has_pq_content(tree: &Vec<TreeSurface>, hdr: bool)
    requires
        call_ensures(surface_tree_is_hdr, (tree,), hdr),
        forall|i: int|
            0 <= i < tree.len() ==> {
                let surface = #[trigger] tree@[i];
                surface.description matches Some(desc) ==> !(desc.transfer is St2084Pq)
                    || desc.primaries.named != Some(Primaries::Bt2020)
            },
    ensures
        !hdr,
{
    if hdr {
        let i = choose|i: int| 0 <= i < tree.len() && (#[trigger] tree[i]).is_hdr();
        assert(tree@[i].is_hdr());
    }
}

} // verus!
