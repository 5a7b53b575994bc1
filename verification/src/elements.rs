//! Which render elements a tree of surfaces is drawn with, and how the colors of
//! its buffers are read.
use crate::color::{ImageDescription, Luminances};
use crate::text::same_text;
use vstd::prelude::*;

verus! {

/// A surface of a tree, in the order in which the tree is drawn.
#[derive(Debug, Clone, Copy, PartialEq, Eq, Structural)]
pub struct DrawnSurface {
    pub surface: u64,
    /// The surface has something to show.
    pub has_view: bool,
    /// Its buffer could be imported.
    pub imported: bool,
    /// It reaches into a rounded corner or outside its window.
    pub clips: bool,
    /// Its background is blurred.
    pub blurs: bool,
}

/// How a surface is drawn.
#[derive(Debug, Clone, Copy, PartialEq, Eq, Structural)]
pub enum ElementKind {
    Wayland,
    Clipped,
    Blur,
}

/// A render element of a surface.
#[derive(Debug, Clone, Copy, PartialEq, Eq, Structural)]
pub struct PushedElement {
    pub surface: u64,
    pub kind: ElementKind,
    /// The element belongs below the main surface.
    pub below: bool,
}

impl DrawnSurface {
    /// Whether the surface has an element.
    pub open spec fn is_shown(self) -> bool {
        self.has_view && self.imported
    }

    /// The elements of a surface. `passed` says whether the main surface came
    /// before it, `splits` whether elements below the main surface are kept apart.
    pub open spec fn elements(self, main: u64, passed: bool, splits: bool) -> Seq<PushedElement> {
        if !self.is_shown() {
            Seq::empty()
        } else {
            let own = PushedElement {
                surface: self.surface,
                kind: if self.clips {
                    ElementKind::Clipped
                } else {
                    ElementKind::Wayland
                },
                below: splits && passed,
            };
            if self.blurs {
                seq![
                    own,
                    PushedElement {
                        surface: self.surface,
                        kind: ElementKind::Blur,
                        below: splits && (passed || self.surface == main),
                    },
                ]
            } else {
                seq![own]
            }
        }
    }
}

/// Whether the main surface is among `tree`.
pub open spec fn holds_main(tree: Seq<DrawnSurface>, main: u64) -> bool {
    exists|i: int| 0 <= i < tree.len() && (#[trigger] tree[i]).surface == main
}

/// The elements of a tree of surfaces, in the order in which they are pushed.
pub open spec fn tree_elements(tree: Seq<DrawnSurface>, main: u64, splits: bool) -> Seq<
    PushedElement,
>
    decreases tree.len(),
{
    if tree.len() == 0 {
        Seq::empty()
    } else {
        tree_elements(tree.drop_last(), main, splits) + tree.last().elements(
            main,
            holds_main(tree.drop_last(), main),
            splits,
        )
    }
}

/// The elements that a tree of surfaces is drawn with: each surface's own, and
/// the blur behind it. Where elements below the main surface are kept apart,
/// those of later surfaces go there, and so does the blur of the main surface.
pub fn push_render_elements_from_surface_tree(
    tree: &Vec<DrawnSurface>,
    main_surface: u64,
    splits: bool,
) -> (elements: Vec<PushedElement>)
    ensures
        elements@ == tree_elements(tree@, main_surface, splits),
{
    let mut elements: Vec<PushedElement> = Vec::new();
    let mut passed_main: bool = false;
    assert(tree@.take(0) =~= Seq::empty());
    for i in 0..tree.len()
        invariant
            elements@ == tree_elements(tree@.take(i as int), main_surface, splits),
            passed_main == holds_main(tree@.take(i as int), main_surface),
    {
        let surface: DrawnSurface = tree[i];
        let ghost seen = tree@.take(i as int);
        let ghost before = elements@;
        let ghost passed = passed_main;
        proof {
            assert(tree@.take(i + 1).drop_last() =~= seen);
            assert(tree@.take(i + 1).last() == surface);
        }
        let shown: bool = surface.has_view && surface.imported;
        if shown {
            elements.push(
                PushedElement {
                    surface: surface.surface,
                    kind: if surface.clips {
                        ElementKind::Clipped
                    } else {
                        ElementKind::Wayland
                    },
                    below: splits && passed_main,
                },
            );
        }
        if surface.surface == main_surface {
            passed_main = true;
        }
        if shown && surface.blurs {
            elements.push(
                PushedElement {
                    surface: surface.surface,
                    kind: ElementKind::Blur,
                    below: splits && passed_main,
                },
            );
        }
        proof {
            assert(elements@ =~= before + surface.elements(main_surface, passed, splits));
            let next = tree@.take(i + 1);
            if passed {
                let k = choose|k: int| 0 <= k < seen.len() && (#[trigger] seen[k]).surface
                    == main_surface;
                assert(next[k].surface == main_surface);
            } else if surface.surface == main_surface {
                assert(next[i as int].surface == main_surface);
            } else {
                assert forall|k: int| 0 <= k < next.len() implies (#[trigger] next[k]).surface
                    != main_surface by {
                    if k < seen.len() {
                        assert(seen[k] == next[k]);
                    }
                }
            }
        }
    }
    assert(tree@.take(tree@.len() as int) =~= tree@);
    elements
}

/// Where nothing is kept apart, no element goes below.
pub proof fn lemma_unsplit_tree_is_above(tree: Seq<DrawnSurface>, main: u64)
    ensures
        forall|i: int|
            0 <= i < tree_elements(tree, main, false).len() ==> !(#[trigger] tree_elements(
                tree,
                main,
                false,
            )[i]).below,
    decreases tree.len(),
{
    if tree.len() > 0 {
        let rest = tree.drop_last();
        lemma_unsplit_tree_is_above(rest, main);
        let before = tree_elements(rest, main, false);
        let own = tree.last().elements(main, holds_main(rest, main), false);
        let all = tree_elements(tree, main, false);
        assert forall|i: int| 0 <= i < all.len() implies !(#[trigger] all[i]).below by {
            if i < before.len() {
                assert(all[i] == before[i]);
            } else {
                assert(all[i] == own[i - before.len()]);
            }
        }
    }
}

/// Once an element goes below the main surface, so do all that follow.
pub proof fn lemma_below_stays_below(tree: Seq<DrawnSurface>, main: u64, i: int, j: int)
    requires
        0 <= i <= j < tree_elements(tree, main, true).len(),
        tree_elements(tree, main, true)[i].below,
    ensures
        tree_elements(tree, main, true)[j].below,
        holds_main(tree, main),
    decreases tree.len(),
{
    if tree.len() > 0 {
        let rest = tree.drop_last();
        let before = tree_elements(rest, main, true);
        let passed = holds_main(rest, main);
        let own = tree.last().elements(main, passed, true);
        let all = tree_elements(tree, main, true);
        if i < before.len() {
            assert(all[i] == before[i]);
            if j < before.len() {
                assert(all[j] == before[j]);
                lemma_below_stays_below(rest, main, i, j);
            } else {
                assert(all[j] == own[j - before.len()]);
                lemma_below_stays_below(rest, main, i, i);
            }
            let k = choose|k: int| 0 <= k < rest.len() && (#[trigger] rest[k]).surface == main;
            assert(tree[k].surface == main);
        } else {
            assert(all[i] == own[i - before.len()]);
            assert(all[j] == own[j - before.len()]);
            if passed {
                let k = choose|k: int| 0 <= k < rest.len() && (#[trigger] rest[k]).surface == main;
                assert(tree[k].surface == main);
            } else {
                assert(tree[tree.len() - 1].surface == main);
            }
        }
    }
}

/// The scale of an output's reference white for content whose 1.0 is a given
/// luminance, as a fraction.
#[derive(Debug, Clone, Copy, PartialEq, Eq, Structural)]
pub struct ReferenceScale {
    pub numerator: u32,
    pub denominator: u32,
}

/// Rescales an output's reference white for Windows-scRGB content: the
/// encoding's 1.0 is its maximum (80 cd/m²) and its SDR white is its reference
/// (203 cd/m² per BT.2408), so mapping that reference onto the output's keeps
/// SDR content at the same brightness as native SDR.
pub fn scrgb_reference_scale(description: &ImageDescription) -> (scale: ReferenceScale)
    ensures
        scale == match description.luminances {
            Some(Luminances { max, reference_white, .. }) => if reference_white == 0 {
                ReferenceScale { numerator: 1, denominator: 1 }
            } else {
                ReferenceScale { numerator: max, denominator: reference_white }
            },
            None => ReferenceScale { numerator: 80, denominator: 203 },
        },
        scale.denominator > 0,
{
    match description.luminances {
        Some(luminances) => if luminances.reference_white == 0 {
            ReferenceScale { numerator: 1, denominator: 1 }
        } else {
            ReferenceScale {
                numerator: luminances.max,
                denominator: luminances.reference_white,
            }
        },
        None => ReferenceScale { numerator: 80, denominator: 203 },
    }
}

/// What the shader of an HDR output is told of a surface's content.
#[derive(Debug, Clone, Copy, PartialEq, Eq, Structural)]
pub enum HdrSurfaceContent {
    /// The buffer is PQ-encoded already.
    PqPassthrough,
    /// The buffer is linear light.
    ScrgbLinear,
}

/// How a shader parameter changes for a surface.
#[derive(Debug, Clone, Copy, PartialEq, Eq, Structural)]
pub enum UniformChange {
    Keep,
    Zero,
    One,
    /// The reference white of the content.
    ContentReference,
    /// Scaled by the content's reference scale.
    ScaleByReference,
}

/// How the shader parameter called `name` changes for a surface's content.
pub open spec fn change_of(content: HdrSurfaceContent, name: Seq<char>) -> UniformChange {
    match content {
        HdrSurfaceContent::PqPassthrough => if name == "hdr_input_pq"@ {
            UniformChange::One
        } else if name == "hdr_content_reference"@ {
            UniformChange::ContentReference
        } else {
            UniformChange::Keep
        },
        HdrSurfaceContent::ScrgbLinear => if name == "hdr_sdr_gamma"@ {
            UniformChange::One
        } else if name == "hdr_gamut_stretch"@ {
            UniformChange::Zero
        } else if name == "hdr_reference_white"@ {
            UniformChange::ScaleByReference
        } else {
            UniformChange::Keep
        },
    }
}

/// How the shader parameter called `name` changes for a surface's content: PQ
/// content is passed through; linear content is not decoded again, and its
/// colors, which exceed the gamut numerically, are not stretched.
pub fn uniform_change(content: HdrSurfaceContent, name: &str) -> (change: UniformChange)
    ensures
        change == change_of(content, name@),
{
    match content {
        HdrSurfaceContent::PqPassthrough => if same_text(name, "hdr_input_pq") {
            UniformChange::One
        } else if same_text(name, "hdr_content_reference") {
            UniformChange::ContentReference
        } else {
            UniformChange::Keep
        },
        HdrSurfaceContent::ScrgbLinear => if same_text(name, "hdr_sdr_gamma") {
            UniformChange::One
        } else if same_text(name, "hdr_gamut_stretch") {
            UniformChange::Zero
        } else if same_text(name, "hdr_reference_white") {
            UniformChange::ScaleByReference
        } else {
            UniformChange::Keep
        },
    }
}

/// A tree without surfaces is drawn with nothing, and one more surface is drawn last:
/// with its own element, clipped where it has to be, and then its blur, if it has
/// something to show. Where elements are kept apart, what comes after the main surface
/// goes below, and so does the blur of the main surface itself.
pub proof fn lemma_surfaces_are_drawn_in_order(
    empty: &Vec<DrawnSurface>,
    nothing: Vec<PushedElement>,
    tree: &Vec<DrawnSurface>,
    before: Vec<PushedElement>,
    longer: &Vec<DrawnSurface>,
    after: Vec<PushedElement>,
    surface: DrawnSurface,
    main: u64,
    splits: bool,
)
    requires
        empty.len() == 0,
        call_ensures(push_render_elements_from_surface_tree, (empty, main, splits), nothing),
        call_ensures(push_render_elements_from_surface_tree, (tree, main, splits), before),
        longer@ == tree@.push(surface),
        call_ensures(push_render_elements_from_surface_tree, (longer, main, splits), after),
    ensures
        nothing.len() == 0,
        before@ == after@.take(before@.len() as int),
        !surface.has_view || !surface.imported ==> after@.len() == before@.len(),
        surface.has_view && surface.imported ==> {
            let own = after@[before@.len() as int];
            let passed = exists|k: int| 0 <= k < tree.len() && (#[trigger] tree@[k]).surface == main;
            &&& after@.len() == before@.len() + 1 || after@.len() == before@.len() + 2
            &&& after@.len() == before@.len() + 2 <==> surface.blurs
            &&& own.surface == surface.surface
            &&& own.kind is Clipped <==> surface.clips
            &&& own.kind is Wayland <==> !surface.clips
            &&& own.below <==> splits && passed
            &&& surface.blurs ==> ({
                let blur = after@.last();
                &&& blur.surface == surface.surface
                &&& blur.kind is Blur
                &&& blur.below <==> splits && (passed || surface.surface == main)
            })
        },
{
    assert(longer@.drop_last() =~= tree@);
    assert(before@ =~= after@.take(before@.len() as int));
}

/// The reference white of scRGB content is scaled by its own luminances where they are
/// stated, by those of the encoding where none are, and not at all by a white of zero.
pub proof fn lemma_scrgb_white_is_scaled(description: &ImageDescription, scale: ReferenceScale)
    requires
        call_ensures(scrgb_reference_scale, (description,), scale),
    ensures
        scale.denominator > 0,
        description.luminances is None ==> scale.numerator == 80 && scale.denominator == 203,
        description.luminances matches Some(own) ==> (own.reference_white > 0 ==> scale.numerator
            == own.max && scale.denominator == own.reference_white) && (own.reference_white == 0
            ==> scale.numerator == scale.denominator),
{
}

/// PQ content is marked as such with its own reference; linear content is not decoded
/// again, not stretched, and scaled by its reference; and no other parameter changes.
pub proof fn lemma_parameters_follow_the_content(
    content: HdrSurfaceContent,
    name: &str,
    change: UniformChange,
)
    requires
        call_ensures(uniform_change, (content, name), change),
    ensures
        change is ContentReference <==> content is PqPassthrough && name@
            == "hdr_content_reference"@,
        change is ScaleByReference <==> content is ScrgbLinear && name@ == "hdr_reference_white"@,
        change is Zero <==> content is ScrgbLinear && name@ == "hdr_gamut_stretch"@,
        change is One <==> (content is PqPassthrough && name@ == "hdr_input_pq"@) || (
        content is ScrgbLinear && name@ == "hdr_sdr_gamma"@),
{
    reveal_strlit("hdr_content_reference");
    reveal_strlit("hdr_reference_white");
    reveal_strlit("hdr_gamut_stretch");
    reveal_strlit("hdr_input_pq");
    reveal_strlit("hdr_sdr_gamma");
    assert("hdr_input_pq"@.len() != "hdr_content_reference"@.len());
    assert("hdr_sdr_gamma"@.len() != "hdr_gamut_stretch"@.len());
    assert("hdr_sdr_gamma"@.len() != "hdr_reference_white"@.len());
    assert("hdr_gamut_stretch"@.len() != "hdr_reference_white"@.len());
}

} // verus!
