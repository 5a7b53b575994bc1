//! Locking and warping the pointer: where a surface is, and when a constraint or
//! a position hint takes effect.
use crate::geometry::{Point, Rectangle, Size};
use vstd::prelude::*;

verus! {

/// Where a surface is shown: the geometry of its element on the output, and the
/// surface's offset in the element.
#[derive(Debug, Clone, Copy, PartialEq, Eq, Structural)]
pub struct Placement {
    pub geometry: Rectangle,
    pub offset: Point,
}

/// An element that may show a surface: the root surfaces of its windows, and
/// where the wanted surface is shown in it, if it is.
#[derive(Debug)]
pub struct PlacedElement {
    pub roots: Vec<u64>,
    pub placement: Option<Placement>,
}

impl PlacedElement {
    /// Whether the element has a window with this root surface.
    pub open spec fn has_root(self, root: u64) -> bool {
        self.roots@.contains(root)
    }

    /// Whether the element has a window with this root surface.
    pub fn shows(&self, root: u64) -> (shows: bool)
        ensures
            shows == self.has_root(root),
    {
        for i in 0..self.roots.len()
            invariant
                forall|j: int| 0 <= j < i ==> self.roots[j] != root,
        {
            if self.roots[i] == root {
                return true;
            }
        }
        false
    }
}

/// The elements of a workspace.
#[derive(Debug)]
pub struct WorkspaceElements {
    pub fullscreen: Option<PlacedElement>,
    pub mapped: Vec<PlacedElement>,
}

/// The elements of an output.
#[derive(Debug)]
pub struct OutputElements {
    /// Windows that are shown on every workspace.
    pub sticky: Vec<PlacedElement>,
    pub workspaces: Vec<WorkspaceElements>,
    pub layers: Vec<PlacedElement>,
}

/// The placement in the first element, from `from` on, that has the root.
pub open spec fn in_first(elements: Seq<PlacedElement>, root: u64, from: int) -> Option<Placement>
    decreases elements.len() - from,
{
    if from < 0 || from >= elements.len() {
        None
    } else if elements[from].has_root(root) {
        elements[from].placement
    } else {
        in_first(elements, root, from + 1)
    }
}

/// The first placement in an element, from `from` on, that has the root.
pub open spec fn in_any(elements: Seq<PlacedElement>, root: u64, from: int) -> Option<Placement>
    decreases elements.len() - from,
{
    if from < 0 || from >= elements.len() {
        None
    } else if elements[from].has_root(root) && elements[from].placement is Some {
        elements[from].placement
    } else {
        in_any(elements, root, from + 1)
    }
}

impl WorkspaceElements {
    /// The placement on a workspace: in its fullscreen surface, or else in one of
    /// its windows.
    pub open spec fn placement(self, root: u64) -> Option<Placement> {
        let fullscreen = match self.fullscreen {
            Some(element) if element.has_root(root) => element.placement,
            _ => None,
        };
        if fullscreen is Some {
            fullscreen
        } else {
            in_any(self.mapped@, root, 0)
        }
    }
}

/// The first placement on a workspace from `from` on.
pub open spec fn in_workspaces(workspaces: Seq<WorkspaceElements>, root: u64, from: int) -> Option<
    Placement,
>
    decreases workspaces.len() - from,
{
    if from < 0 || from >= workspaces.len() {
        None
    } else if workspaces[from].placement(root) is Some {
        workspaces[from].placement(root)
    } else {
        in_workspaces(workspaces, root, from + 1)
    }
}

impl OutputElements {
    /// The placement on an output: in the sticky layer, or else on a workspace,
    /// or else in a layer surface.
    pub open spec fn placement(self, root: u64) -> Option<Placement> {
        if in_first(self.sticky@, root, 0) is Some {
            in_first(self.sticky@, root, 0)
        } else if in_workspaces(self.workspaces@, root, 0) is Some {
            in_workspaces(self.workspaces@, root, 0)
        } else {
            in_any(self.layers@, root, 0)
        }
    }
}

fn find_in_first(elements: &Vec<PlacedElement>, root: u64) -> (placement: Option<Placement>)
    ensures
        placement == in_first(elements@, root, 0),
{
    let mut i: usize = 0;
    while i < elements.len()
        invariant
            i <= elements.len(),
            in_first(elements@, root, 0) == in_first(elements@, root, i as int),
        decreases elements.len() - i,
    {
        if elements[i].shows(root) {
            return elements[i].placement;
        }
        i = i + 1;
    }
    None
}

fn find_in_any(elements: &Vec<PlacedElement>, root: u64) -> (placement: Option<Placement>)
    ensures
        placement == in_any(elements@, root, 0),
{
    let mut i: usize = 0;
    while i < elements.len()
        invariant
            i <= elements.len(),
            in_any(elements@, root, 0) == in_any(elements@, root, i as int),
        decreases elements.len() - i,
    {
        if elements[i].shows(root) && elements[i].placement.is_some() {
            return elements[i].placement;
        }
        i = i + 1;
    }
    None
}

/// Where a surface is shown on an output, given the root of its tree.
pub fn find_window(output: &OutputElements, root: u64) -> (placement: Option<Placement>)
    ensures
        placement == output.placement(root),
{
    let sticky: Option<Placement> = find_in_first(&output.sticky, root);
    if sticky.is_some() {
        return sticky;
    }
    let mut i: usize = 0;
    while i < output.workspaces.len()
        invariant
            i <= output.workspaces.len(),
            in_first(output.sticky@, root, 0) is None,
            in_workspaces(output.workspaces@, root, 0) == in_workspaces(
                output.workspaces@,
                root,
                i as int,
            ),
        decreases output.workspaces.len() - i,
    {
        let workspace: &WorkspaceElements = &output.workspaces[i];
        if let Some(fullscreen) = &workspace.fullscreen {
            if fullscreen.shows(root) && fullscreen.placement.is_some() {
                return fullscreen.placement;
            }
        }
        let mapped: Option<Placement> = find_in_any(&workspace.mapped, root);
        if mapped.is_some() {
            return mapped;
        }
        i = i + 1;
    }
    find_in_any(&output.layers, root)
}

/// The first placement on an output from `from` on, with the index of the output.
pub open spec fn on_outputs(outputs: Seq<OutputElements>, root: u64, from: int) -> Option<
    (int, Placement),
>
    decreases outputs.len() - from,
{
    if from < 0 || from >= outputs.len() {
        None
    } else {
        match outputs[from].placement(root) {
            Some(placement) => Some((from, placement)),
            None => on_outputs(outputs, root, from + 1),
        }
    }
}

/// The first output on which a surface is shown, and where.
pub fn find_window_on_outputs(outputs: &Vec<OutputElements>, root: u64) -> (found: Option<
    (usize, Placement),
>)
    ensures
        match found {
            Some((index, placement)) => on_outputs(outputs@, root, 0) == Some(
                (index as int, placement),
            ),
            None => on_outputs(outputs@, root, 0) is None,
        },
{
    let mut i: usize = 0;
    while i < outputs.len()
        invariant
            i <= outputs.len(),
            on_outputs(outputs@, root, 0) == on_outputs(outputs@, root, i as int),
        decreases outputs.len() - i,
    {
        if let Some(placement) = find_window(&outputs[i], root) {
            return Some((i, placement));
        }
        i = i + 1;
    }
    None
}

/// A surface is only ever found in an element that has its root.
pub proof fn lemma_found_element_has_root(elements: Seq<PlacedElement>, root: u64, from: int)
    requires
        0 <= from,
    ensures
        in_first(elements, root, from) matches Some(placement) ==> exists|i: int|
            from <= i < elements.len() && (#[trigger] elements[i]).has_root(root)
                && elements[i].placement == Some(placement),
        in_any(elements, root, from) matches Some(placement) ==> exists|i: int|
            from <= i < elements.len() && (#[trigger] elements[i]).has_root(root)
                && elements[i].placement == Some(placement),
    decreases elements.len() - from,
{
    if from < elements.len() {
        lemma_found_element_has_root(elements, root, from + 1);
    }
}

/// The next step towards the root of a surface's tree: its parent, or for a
/// popup without one the surface that it belongs to.
pub fn next_towards_root(parent: Option<u64>, is_popup: bool, popup_parent: Option<u64>) -> (next:
    Option<u64>)
    ensures
        next == if parent is Some {
            parent
        } else if is_popup {
            popup_parent
        } else {
            None
        },
{
    if parent.is_some() {
        parent
    } else if is_popup {
        popup_parent
    } else {
        None
    }
}

/// Where the surface under the pointer lies in the tree of a constrained
/// surface: at no offset where it is that surface itself, at `offset` where it
/// is one of its subsurfaces; `None` where it is neither.
pub fn offset_under_pointer(
    surface: u64,
    under_surface: Option<u64>,
    offset: Option<Point>,
) -> (found: Option<Point>)
    ensures
        found == match under_surface {
            None => None,
            Some(under) => if under == surface {
                Some(Point { x: 0, y: 0 })
            } else {
                offset
            },
        },
{
    match under_surface {
        None => None,
        Some(under) => if under == surface {
            Some(Point { x: 0, y: 0 })
        } else {
            offset
        },
    }
}

/// A new constraint of a surface.
#[derive(Debug, Clone, Copy, PartialEq, Eq, Structural)]
pub struct ConstraintRequest {
    /// The constraint exists.
    pub exists: bool,
    /// The keyboard focus is in the surface's tree.
    pub is_focused: bool,
    /// The pointer is over the surface's tree.
    pub is_under: bool,
    /// The constraint has a region, and the pointer is in it.
    pub region_contains: Option<bool>,
}

/// Whether a new constraint takes effect at once: its surface has to be focused
/// and under the pointer, and the pointer has to be in its region.
pub fn activates_constraint(request: ConstraintRequest) -> (activates: bool)
    ensures
        activates == (request.exists && request.is_focused && request.is_under
            && request.region_contains != Some(false)),
{
    request.is_focused && request.is_under && request.exists && match request.region_contains {
        Some(inside) => inside,
        None => true,
    }
}

/// The position hint of a seat's pointer: the surface that gave it.
#[derive(Debug, Clone, Copy, PartialEq, Eq, Structural)]
pub struct SeatPointer {
    pub pointer: Option<u64>,
    pub hint: Option<u64>,
}

/// The first seat with a pointer, from `from` on.
pub open spec fn seat_with_pointer(seats: Seq<SeatPointer>, pointer: u64, from: int) -> Option<int>
    decreases seats.len() - from,
{
    if from < 0 || from >= seats.len() {
        None
    } else if seats[from].pointer == Some(pointer) {
        Some(from)
    } else {
        seat_with_pointer(seats, pointer, from + 1)
    }
}

/// The first seat with a pointer.
pub fn find_seat(seats: &Vec<SeatPointer>, pointer: u64) -> (seat: Option<usize>)
    ensures
        match seat {
            Some(index) => index < seats.len() && seat_with_pointer(seats@, pointer, 0) == Some(
                index as int,
            ),
            None => seat_with_pointer(seats@, pointer, 0) is None,
        },
{
    let mut i: usize = 0;
    while i < seats.len()
        invariant
            i <= seats.len(),
            seat_with_pointer(seats@, pointer, 0) == seat_with_pointer(seats@, pointer, i as int),
        decreases seats.len() - i,
    {
        if let Some(own) = seats[i].pointer {
            if own == pointer {
                return Some(i);
            }
        }
        i = i + 1;
    }
    None
}

/// The seats once the hint of a pointer was set.
pub open spec fn with_hint(seats: Seq<SeatPointer>, pointer: u64, hint: Option<u64>) -> Seq<
    SeatPointer,
> {
    match seat_with_pointer(seats, pointer, 0) {
        Some(index) => seats.update(index, SeatPointer { hint, ..seats[index] }),
        None => seats,
    }
}

fn set_hint(seats: &mut Vec<SeatPointer>, pointer: u64, hint: Option<u64>)
    ensures
        final(seats)@ == with_hint(old(seats)@, pointer, hint),
{
    if let Some(index) = find_seat(seats, pointer) {
        let seat: SeatPointer = seats[index];
        seats.set(index, SeatPointer { hint, ..seat });
    }
}

/// A constraint was created: an old position hint of its pointer is dropped.
pub fn new_constraint(seats: &mut Vec<SeatPointer>, pointer: u64)
    ensures
        final(seats)@ == with_hint(old(seats)@, pointer, None),
{
    set_hint(seats, pointer, None);
}

/// A client hints where its pointer should be once it is free again. Hints count
/// while the constraint is active only.
pub fn cursor_position_hint(
    seats: &mut Vec<SeatPointer>,
    pointer: u64,
    surface: u64,
    is_active: bool,
)
    ensures
        final(seats)@ == if is_active {
            with_hint(old(seats)@, pointer, Some(surface))
        } else {
            old(seats)@
        },
{
    if is_active {
        set_hint(seats, pointer, Some(surface));
    }
}

/// Whether the seat of a pointer has a hint of a surface.
pub open spec fn has_hint(seats: Seq<SeatPointer>, pointer: u64, surface: u64) -> bool {
    seat_with_pointer(seats, pointer, 0) matches Some(index) && seats[index].hint == Some(surface)
}

/// A constraint was removed or deactivated. Returns whether the hint of its
/// surface is to be applied now; it is used up then.
pub fn remove_constraint(seats: &mut Vec<SeatPointer>, pointer: u64, surface: u64) -> (applies:
    bool)
    ensures
        applies == has_hint(old(seats)@, pointer, surface),
        final(seats)@ == if applies {
            with_hint(old(seats)@, pointer, None)
        } else {
            old(seats)@
        },
{
    if let Some(index) = find_seat(seats, pointer) {
        if let Some(hint_surface) = seats[index].hint {
            if hint_surface == surface {
                set_hint(seats, pointer, None);
                return true;
            }
        }
    }
    false
}

/// A hint is applied once: after the constraint is removed, it is gone.
pub proof fn lemma_hint_is_used_once(seats: Seq<SeatPointer>, pointer: u64, surface: u64, other: u64)
    ensures
        !has_hint(with_hint(seats, pointer, None), pointer, other),
        seat_with_pointer(seats, pointer, 0) is Some ==> has_hint(
            with_hint(seats, pointer, Some(surface)),
            pointer,
            surface,
        ),
{
    lemma_seat_with_pointer(seats, pointer, 0, None);
    lemma_seat_with_pointer(seats, pointer, 0, Some(surface));
}

proof fn lemma_seat_with_pointer(
    seats: Seq<SeatPointer>,
    pointer: u64,
    from: int,
    hint: Option<u64>,
)
    requires
        0 <= from <= seats.len(),
    ensures
        seat_with_pointer(seats, pointer, from) matches Some(index) ==> from <= index < seats.len()
            && seat_with_pointer(
            seats.update(index, SeatPointer { hint, ..seats[index] }),
            pointer,
            from,
        ) == Some(index),
    decreases seats.len() - from,
{
    if from < seats.len() && seats[from].pointer != Some(pointer) {
        lemma_seat_with_pointer(seats, pointer, from + 1, hint);
        if let Some(index) = seat_with_pointer(seats, pointer, from) {
            assert(seats.update(index, SeatPointer { hint, ..seats[index] })[from] == seats[from]);
        }
    }
}

/// Which position a hint comes to.
#[derive(Debug, Clone, Copy, PartialEq, Eq, Structural)]
pub enum HintChoice {
    /// The hinted position.
    Hinted,
    /// The hinted height at the pointer's own column.
    HintedY,
    /// The hinted column at the pointer's own height.
    HintedX,
    /// The pointer's own position.
    Unchanged,
}

/// Which position a hint comes to: the hinted one if it lies in the window and
/// the constraint's region, or else the closest one that does by one coordinate.
pub fn apply_cursor_hint(is_legal: bool, y_only_is_legal: bool, x_only_is_legal: bool) -> (choice:
    HintChoice)
    ensures
        choice == if is_legal {
            HintChoice::Hinted
        } else if y_only_is_legal {
            HintChoice::HintedY
        } else if x_only_is_legal {
            HintChoice::HintedX
        } else {
            HintChoice::Unchanged
        },
{
    if is_legal {
        HintChoice::Hinted
    } else if y_only_is_legal {
        HintChoice::HintedY
    } else if x_only_is_legal {
        HintChoice::HintedX
    } else {
        HintChoice::Unchanged
    }
}

/// A seat, as far as warping its pointer is concerned.
#[derive(Debug, Clone, Copy, PartialEq, Eq, Structural)]
pub struct WarpSeat {
    pub pointer: Option<u64>,
    /// The serial with which the pointer last entered a surface.
    pub last_enter: Option<u32>,
    /// The keyboard focus has the warping surface.
    pub focus_has_surface: bool,
}

/// The pointer that a request may warp, from `from` on.
pub open spec fn warpable(seats: Seq<WarpSeat>, serial: u32, from: int) -> Option<u64>
    decreases seats.len() - from,
{
    if from < 0 || from >= seats.len() {
        None
    } else if seats[from].pointer is Some && seats[from].last_enter == Some(serial)
        && seats[from].focus_has_surface {
        seats[from].pointer
    } else {
        warpable(seats, serial, from + 1)
    }
}

/// The pointer that a request may warp: that of the first seat whose pointer
/// entered with the request's serial and whose focus has the surface.
pub fn warp_pointer(seats: &Vec<WarpSeat>, serial: u32) -> (pointer: Option<u64>)
    ensures
        pointer == warpable(seats@, serial, 0),
{
    let mut i: usize = 0;
    while i < seats.len()
        invariant
            i <= seats.len(),
            warpable(seats@, serial, 0) == warpable(seats@, serial, i as int),
        decreases seats.len() - i,
    {
        let seat: WarpSeat = seats[i];
        let entered: bool = match seat.last_enter {
            Some(last) => last == serial,
            None => false,
        };
        if seat.pointer.is_some() && entered && seat.focus_has_surface {
            return seat.pointer;
        }
        i = i + 1;
    }
    None
}

/// Whether a cursor capture has to be told of a new size, given the size that
/// it was last told.
pub fn constraints_changed(current: Option<Size>, size: Size) -> (
    changed: bool)
    ensures
        changed == (current != Some(size)),
{
    match current {
        Some(current) => current != size,
        None => true,
    }
}

/// Whether no element has a window with this root surface.
pub open spec fn lack_root(elements: Seq<PlacedElement>, root: u64) -> bool {
    forall|i: int| 0 <= i < elements.len() ==> !(#[trigger] elements[i]).roots@.contains(root)
}

/// Whether no element of a workspace has a window with this root surface.
pub open spec fn workspace_lacks(workspace: WorkspaceElements, root: u64) -> bool {
    &&& lack_root(workspace.mapped@, root)
    &&& workspace.fullscreen matches Some(element) ==> !element.roots@.contains(root)
}

proof fn lemma_in_first(elements: Seq<PlacedElement>, root: u64, from: int, i: int)
    requires
        0 <= from <= i <= elements.len(),
        forall|j: int| from <= j < i ==> !(#[trigger] elements[j]).roots@.contains(root),
    ensures
        in_first(elements, root, from) == in_first(elements, root, i),
        in_any(elements, root, from) == in_any(elements, root, i),
    decreases i - from,
{
    if from < i {
        assert(!elements[from].roots@.contains(root));
        lemma_in_first(elements, root, from + 1, i);
    }
}

proof fn lemma_in_workspaces(workspaces: Seq<WorkspaceElements>, root: u64, from: int, i: int)
    requires
        0 <= from <= i <= workspaces.len(),
        forall|j: int| from <= j < i ==> workspace_lacks(#[trigger] workspaces[j], root),
    ensures
        in_workspaces(workspaces, root, from) == in_workspaces(workspaces, root, i),
    decreases i - from,
{
    if from < i {
        assert(workspace_lacks(workspaces[from], root));
        lemma_in_first(workspaces[from].mapped@, root, 0, workspaces[from].mapped@.len() as int);
        lemma_in_workspaces(workspaces, root, from + 1, i);
    }
}

/// A window is found where it is shown: in the first sticky window that has its root,
/// whatever else there is; else on the first workspace that has it, there in the
/// fullscreen surface before any other window; else in a layer; and nowhere if nothing
/// has it.
pub proof fn lemma_window_is_found_where_it_is_shown(
    output: &OutputElements,
    root: u64,
    placement: Option<Placement>,
    i: int,
    k: int,
)
    requires
        call_ensures(find_window, (output, root), placement),
    ensures
        0 <= i < output.sticky.len() && output.sticky@[i].roots@.contains(root)
            && output.sticky@[i].placement is Some && lack_root(
            output.sticky@.take(i),
            root,
        ) ==> placement == output.sticky@[i].placement,
        lack_root(output.sticky@, root) && 0 <= k < output.workspaces.len() && (forall|j: int|
            0 <= j < k ==> workspace_lacks(#[trigger] output.workspaces@[j], root)) ==> {
            let workspace = output.workspaces@[k];
            &&& (workspace.fullscreen matches Some(element) && element.roots@.contains(root)
                && element.placement is Some) ==> placement == workspace.fullscreen->0.placement
            &&& (workspace.fullscreen matches Some(element) ==> !element.roots@.contains(root)) && 0
                <= i < workspace.mapped.len() && workspace.mapped@[i].roots@.contains(root)
                && workspace.mapped@[i].placement is Some && lack_root(
                workspace.mapped@.take(i),
                root,
            ) ==> placement == workspace.mapped@[i].placement
        },
        lack_root(output.sticky@, root) && (forall|j: int|
            0 <= j < output.workspaces.len() ==> workspace_lacks(
                #[trigger] output.workspaces@[j],
                root,
            )) ==> {
            &&& 0 <= i < output.layers.len() && output.layers@[i].roots@.contains(root)
                && output.layers@[i].placement is Some && lack_root(
                output.layers@.take(i),
                root,
            ) ==> placement == output.layers@[i].placement
            &&& lack_root(output.layers@, root) ==> placement is None
        },
{
    let sticky = output.sticky@;
    let workspaces = output.workspaces@;
    let layers = output.layers@;
    if 0 <= i < sticky.len() && lack_root(sticky.take(i), root) {
        assert forall|j: int| 0 <= j < i implies !(#[trigger] sticky[j]).roots@.contains(root) by {
            assert(sticky.take(i)[j] == sticky[j]);
        }
        lemma_in_first(sticky, root, 0, i);
    }
    if lack_root(sticky, root) {
        lemma_in_first(sticky, root, 0, sticky.len() as int);
        if 0 <= k < workspaces.len() && (forall|j: int|
            0 <= j < k ==> workspace_lacks(#[trigger] workspaces[j], root)) {
            lemma_in_workspaces(workspaces, root, 0, k);
            let mapped = workspaces[k].mapped@;
            if 0 <= i < mapped.len() && lack_root(mapped.take(i), root) {
                assert forall|j: int| 0 <= j < i implies !(
                #[trigger] mapped[j]).roots@.contains(root) by {
                    assert(mapped.take(i)[j] == mapped[j]);
                }
                lemma_in_first(mapped, root, 0, i);
            }
        }
        if forall|j: int|
            0 <= j < workspaces.len() ==> workspace_lacks(#[trigger] workspaces[j], root) {
            lemma_in_workspaces(workspaces, root, 0, workspaces.len() as int);
            if 0 <= i < layers.len() && lack_root(layers.take(i), root) {
                assert forall|j: int| 0 <= j < i implies !(
                #[trigger] layers[j]).roots@.contains(root) by {
                    assert(layers.take(i)[j] == layers[j]);
                }
                lemma_in_first(layers, root, 0, i);
            }
            if lack_root(layers, root) {
                lemma_in_first(layers, root, 0, layers.len() as int);
            }
        }
    }
}

/// Among outputs, a window is found on the first that shows it.
pub proof fn lemma_first_output_that_shows_a_window(
    outputs: &Vec<OutputElements>,
    root: u64,
    found: Option<(usize, Placement)>,
    i: int,
    here: Option<Placement>,
)
    requires
        call_ensures(find_window_on_outputs, (outputs, root), found),
        0 <= i < outputs.len(),
        call_ensures(find_window, (&outputs@[i], root), here),
    ensures
        found is None ==> here is None,
        found matches Some(place) ==> place.0 < outputs.len() && (i < place.0 ==> here is None) && (i
            == place.0 ==> here == Some(place.1)),
{
    lemma_on_outputs(outputs@, root, 0, i);
}

proof fn lemma_on_outputs(outputs: Seq<OutputElements>, root: u64, from: int, i: int)
    requires
        0 <= from <= outputs.len(),
    ensures
        on_outputs(outputs, root, from) is None && from <= i < outputs.len()
            ==> outputs[i].placement(root) is None,
        on_outputs(outputs, root, from) matches Some(place) ==> from <= place.0 < outputs.len()
            && outputs[place.0].placement(root) == Some(place.1) && (from <= i < place.0
            ==> outputs[i].placement(root) is None),
    decreases outputs.len() - from,
{
    if from < outputs.len() {
        lemma_on_outputs(outputs, root, from + 1, i);
    }
}

/// The way to the root of a tree leads over parents, and from a popup without one to
/// the surface that it belongs to; and the surface under the pointer lies at no offset
/// in itself.
pub proof fn lemma_way_to_the_root(
    parent: Option<u64>,
    is_popup: bool,
    popup_parent: Option<u64>,
    next: Option<u64>,
    surface: u64,
    under: Option<u64>,
    offset: Option<Point>,
    found: Option<Point>,
)
    requires
        call_ensures(next_towards_root, (parent, is_popup, popup_parent), next),
        call_ensures(offset_under_pointer, (surface, under, offset), found),
    ensures
        parent matches Some(own) ==> next == Some(own),
        parent is None && is_popup ==> next == popup_parent,
        parent is None && !is_popup ==> next is None,
        under is None ==> found is None,
        under == Some(surface) ==> (found matches Some(point) && point.x == 0 && point.y == 0),
        under is Some && under != Some(surface) ==> found == offset,
{
}

/// A constraint takes effect at once exactly when it exists, its surface is focused and
/// under the pointer, and the pointer is not outside its region.
pub proof fn lemma_constraint_takes_effect(request: ConstraintRequest, activates: bool)
    requires
        call_ensures(activates_constraint, (request,), activates),
    ensures
        activates ==> request.exists && request.is_focused && request.is_under,
        request.region_contains == Some(false) ==> !activates,
        request.exists && request.is_focused && request.is_under && (request.region_contains is None
            || request.region_contains == Some(true)) ==> activates,
{
}

proof fn lemma_seat_is_first(seats: Seq<SeatPointer>, pointer: u64, from: int, i: int)
    requires
        0 <= from <= seats.len(),
    ensures
        seat_with_pointer(seats, pointer, from) is None && from <= i < seats.len()
            ==> seats[i].pointer != Some(pointer),
        seat_with_pointer(seats, pointer, from) matches Some(index) ==> from <= index < seats.len()
            && seats[index].pointer == Some(pointer) && (from <= i < index ==> seats[i].pointer
            != Some(pointer)),
    decreases seats.len() - from,
{
    if from < seats.len() {
        lemma_seat_is_first(seats, pointer, from + 1, i);
    }
}

/// The seat of a pointer is the first that has it.
pub proof fn lemma_seat_of_a_pointer(
    seats: &Vec<SeatPointer>,
    pointer: u64,
    seat: Option<usize>,
    i: int,
)
    requires
        call_ensures(find_seat, (seats, pointer), seat),
        0 <= i < seats.len(),
    ensures
        seat is None ==> seats@[i].pointer != Some(pointer),
        seat matches Some(index) ==> index < seats.len() && seats@[index as int].pointer == Some(
            pointer,
        ) && (i < index ==> seats@[i].pointer != Some(pointer)),
{
    lemma_seat_is_first(seats@, pointer, 0, i);
}

/// A hint that is given while its constraint is active is applied when the constraint
/// goes, once, and only for its own surface; a new constraint drops it, and one that is
/// given while the constraint is not active does not count.
pub proof fn lemma_hint_is_applied_once(
    seats: &mut Vec<SeatPointer>,
    pointer: u64,
    surface: u64,
    other: u64,
    seat: usize,
    removed: &mut Vec<SeatPointer>,
    applies: bool,
    again: &mut Vec<SeatPointer>,
    applies_again: bool,
    other_removed: &mut Vec<SeatPointer>,
    other_applies: bool,
    renewed: &mut Vec<SeatPointer>,
    after_renewal: &mut Vec<SeatPointer>,
    applies_after: bool,
    inactive: &mut Vec<SeatPointer>,
)
    requires
        call_ensures(find_seat, (&*old(seats), pointer), Some(seat)),
        call_ensures(cursor_position_hint, (seats, pointer, surface, true), ()),
        (*old(removed))@ == (*final(seats))@,
        call_ensures(remove_constraint, (removed, pointer, surface), applies),
        (*old(again))@ == (*final(removed))@,
        call_ensures(remove_constraint, (again, pointer, surface), applies_again),
        (*old(other_removed))@ == (*final(seats))@,
        call_ensures(remove_constraint, (other_removed, pointer, other), other_applies),
        (*old(renewed))@ == (*final(seats))@,
        call_ensures(new_constraint, (renewed, pointer), ()),
        (*old(after_renewal))@ == (*final(renewed))@,
        call_ensures(remove_constraint, (after_renewal, pointer, surface), applies_after),
        call_ensures(cursor_position_hint, (inactive, pointer, surface, false), ()),
    ensures
        applies,
        !applies_again,
        other_applies <==> other == surface,
        other != surface ==> (*final(other_removed))@ == (*final(seats))@,
        !applies_after,
        (*final(inactive))@ == (*old(inactive))@,
        (*final(seats))@.len() == (*old(seats))@.len(),
        forall|i: int|
            0 <= i < (*old(seats))@.len() ==> (#[trigger] (*final(seats))@[i]).pointer == (
            *old(seats))@[i].pointer,
        forall|i: int|
            0 <= i < (*old(seats))@.len() && i != seat ==> #[trigger] (*final(seats))@[i] == (
            *old(seats))@[i],
{
    let before = (*old(seats))@;
    let hinted = (*final(seats))@;
    lemma_hint_is_used_once(before, pointer, surface, other);
    lemma_seat_with_pointer(before, pointer, 0, Some(surface));
    assert(seat_with_pointer(before, pointer, 0) == Some(seat as int));
    assert(seat_with_pointer(hinted, pointer, 0) == Some(seat as int));
    assert(hinted[seat as int].hint == Some(surface));
    lemma_hint_is_used_once(hinted, pointer, surface, surface);
}

/// A hint is followed as far as it is legal: fully, else by one of its coordinates, the
/// height first, and else not at all.
pub proof fn lemma_hint_is_followed_as_far_as_legal(
    is_legal: bool,
    y_only: bool,
    x_only: bool,
    choice: HintChoice,
)
    requires
        call_ensures(apply_cursor_hint, (is_legal, y_only, x_only), choice),
    ensures
        choice is Hinted <==> is_legal,
        choice is HintedY <==> !is_legal && y_only,
        choice is HintedX <==> !is_legal && !y_only && x_only,
{
}

/// A request warps the pointer of the first seat that entered with its serial and
/// whose focus has the surface, and no other.
pub proof fn lemma_warped_pointer(
    seats: &Vec<WarpSeat>,
    serial: u32,
    pointer: Option<u64>,
    i: int,
)
    requires
        call_ensures(warp_pointer, (seats, serial), pointer),
        0 <= i <= seats.len(),
        forall|j: int|
            0 <= j < i ==> {
                let seat = #[trigger] seats@[j];
                seat.pointer is None || seat.last_enter != Some(serial) || !seat.focus_has_surface
            },
    ensures
        i == seats.len() ==> pointer is None,
        i < seats.len() && seats@[i].pointer is Some && seats@[i].last_enter == Some(serial)
            && seats@[i].focus_has_surface ==> pointer == seats@[i].pointer,
{
    lemma_warpable(seats@, serial, 0, i);
}

proof fn lemma_warpable(seats: Seq<WarpSeat>, serial: u32, from: int, i: int)
    requires
        0 <= from <= i <= seats.len(),
        forall|j: int|
            from <= j < i ==> {
                let seat = #[trigger] seats[j];
                seat.pointer is None || seat.last_enter != Some(serial) || !seat.focus_has_surface
            },
    ensures
        warpable(seats, serial, from) == warpable(seats, serial, i),
    decreases i - from,
{
    if from < i {
        let seat = seats[from];
        assert(seat.pointer is None || seat.last_enter != Some(serial) || !seat.focus_has_surface);
        lemma_warpable(seats, serial, from + 1, i);
    }
}

/// A capture is told of a size exactly when that is not the one it was told last; and
/// an element shows a window exactly when it has its root.
pub proof fn lemma_sizes_and_roots(
    current: Option<Size>,
    size: Size,
    changed: bool,
    element: &PlacedElement,
    root: u64,
    shows: bool,
    i: int,
)
    requires
        call_ensures(constraints_changed, (current, size), changed),
        call_ensures(PlacedElement::shows, (element, root), shows),
    ensures
        current is None ==> changed,
        current matches Some(told) ==> (changed <==> told.w != size.w || told.h != size.h),
        0 <= i < element.roots.len() && element.roots@[i] == root ==> shows,
        (forall|j: int| 0 <= j < element.roots.len() ==> #[trigger] element.roots@[j] != root)
            ==> !shows,
{
}

} // verus!
