//! The view tree. A view owns a typed widget state (layer flags, background
//! color), optional layout constraints (fixed width/height, four sides
//! relative to a sibling), and its child views. Styles are applied by
//! looking each node's name up at the top level of a flat style tree —
//! view names are assumed globally unique — and recursing into the
//! children with the same tree.

use vstd::prelude::*;

use crate::color::{color_from_node, Color, ColorModel};
use crate::error::StyleError;
use crate::json::{jview, node_field, Json, JsonV};

verus! {

/// What a view renders as.
#[derive(Clone, Copy, Debug, PartialEq, Eq, Structural)]
pub enum ViewKind {
    View,
    Label,
}

/// The typed state a view keeps for its platform widget: the drawing
/// flags and the background color, as plain owned fields.
#[derive(Clone, Copy, Debug, PartialEq, Eq)]
pub struct Widget {
    /// The widget draws into its own backing layer.
    pub wants_layer: bool,
    /// The widget's autoresizing mask is translated into constraints.
    pub translates_autoresizing_mask: bool,
    /// The widget must redraw before it is next shown.
    pub needs_display: bool,
    /// The background color the widget draws, once one is set.
    pub background_color: Option<Color>,
}

/// The model of a widget: the same flags, with the color as channel
/// numerators.
pub struct WidgetModel {
    pub wants_layer: bool,
    pub translates_autoresizing_mask: bool,
    pub needs_display: bool,
    pub background_color: Option<ColorModel>,
}

/// The model of a widget's state.
pub open spec fn wview(w: Widget) -> WidgetModel {
    WidgetModel {
        wants_layer: w.wants_layer,
        translates_autoresizing_mask: w.translates_autoresizing_mask,
        needs_display: w.needs_display,
        background_color: match w.background_color {
            Some(c) => Some(c.model()),
            None => None,
        },
    }
}

/// A fresh container widget: layer-backed, not translating its
/// autoresizing mask, nothing to draw yet.
pub open spec fn container_widget_model() -> WidgetModel {
    WidgetModel {
        wants_layer: true,
        translates_autoresizing_mask: false,
        needs_display: false,
        background_color: None,
    }
}

/// The mathematical model of a view tree node.
#[verifier::ext_equal]
pub struct ViewModel {
    pub kind: ViewKind,
    pub name: Seq<char>,
    pub widget: WidgetModel,
    pub width: Option<int>,
    pub height: Option<int>,
    pub top: Option<(Seq<char>, int)>,
    pub leading: Option<(Seq<char>, int)>,
    pub trailing: Option<(Seq<char>, int)>,
    pub bottom: Option<(Seq<char>, int)>,
    pub children: Seq<ViewModel>,
}

/// A named node of the view tree. The style lookup key is `name`; nothing
/// here enforces that names are globally unique, as the style application
/// assumes (a duplicate name receives the same style block).
pub struct ViewNode {
    pub kind: ViewKind,
    pub name: String,
    pub widget: Widget,
    pub width: Option<i64>,
    pub height: Option<i64>,
    pub top: Option<(String, i64)>,
    pub leading: Option<(String, i64)>,
    pub trailing: Option<(String, i64)>,
    pub bottom: Option<(String, i64)>,
    pub subviews: Vec<ViewNode>,
}

/// The model of an optional relative constraint.
pub open spec fn rel_view(o: Option<(String, i64)>) -> Option<(Seq<char>, int)> {
    match o {
        Some(p) => Some((p.0@, p.1 as int)),
        None => None,
    }
}

/// The model of an optional size constraint.
pub open spec fn size_view(o: Option<i64>) -> Option<int> {
    match o {
        Some(x) => Some(x as int),
        None => None,
    }
}

/// The model of a view tree node.
pub open spec fn vview(v: ViewNode) -> ViewModel
    decreases v, 0int,
{
    ViewModel {
        kind: v.kind,
        name: v.name@,
        widget: wview(v.widget),
        width: size_view(v.width),
        height: size_view(v.height),
        top: rel_view(v.top),
        leading: rel_view(v.leading),
        trailing: rel_view(v.trailing),
        bottom: rel_view(v.bottom),
        children: children_view(v.subviews@),
    }
}

/// The models of a sequence of child views.
pub open spec fn children_view(cs: Seq<ViewNode>) -> Seq<ViewModel>
    decreases cs, 0int,
{
    Seq::new(
        cs.len(),
        |i: int|
            if 0 <= i < cs.len() {
                vview(cs[i])
            } else {
                arbitrary()
            },
    )
}

/// The model of a freshly constructed view: no constraints, no children.
pub open spec fn fresh_view(name: Seq<char>, kind: ViewKind, w: WidgetModel) -> ViewModel {
    ViewModel {
        kind,
        name,
        widget: w,
        width: None,
        height: None,
        top: None,
        leading: None,
        trailing: None,
        bottom: None,
        children: Seq::empty(),
    }
}

impl ViewNode {
    /// A view of the given kind wrapping an already-built widget state.
    pub fn named_of_kind_with_backing_node(name: &str, kind: ViewKind, backing_node: Widget) -> (v:
        ViewNode)
        ensures
            vview(v) == fresh_view(name@, kind, wview(backing_node)),
    {
        let v = ViewNode {
            kind,
            name: name.to_owned(),
            widget: backing_node,
            width: None,
            height: None,
            top: None,
            leading: None,
            trailing: None,
            bottom: None,
            subviews: Vec::new(),
        };
        proof {
            assert(children_view(v.subviews@) =~= Seq::empty());
            assert(vview(v) =~= fresh_view(name@, kind, wview(backing_node)));
        }
        v
    }

    /// A plain container view: a fresh layer-backed widget that does not
    /// translate its autoresizing mask into constraints.
    pub fn named(name: &str) -> (v: ViewNode)
        ensures
            vview(v) == fresh_view(name@, ViewKind::View, container_widget_model()),
    {
        ViewNode::named_of_kind_with_backing_node(
            name,
            ViewKind::View,
            Widget {
                wants_layer: true,
                translates_autoresizing_mask: false,
                needs_display: false,
                background_color: None,
            },
        )
    }

    /// Attaches the given views as this view's children, in order.
    pub fn subviews(self, views: Vec<ViewNode>) -> (v: ViewNode)
        ensures
            vview(v) == (ViewModel { children: children_view(views@), ..vview(self) }),
    {
        let v = ViewNode { subviews: views, ..self };
        proof {
            assert(vview(v) =~= (ViewModel { children: children_view(v.subviews@), ..vview(v) }));
        }
        v
    }

    /// Appends one child view.
    pub fn add_subview(&mut self, view: ViewNode)
        ensures
            vview(*final(self)) == (ViewModel {
                children: vview(*old(self)).children.push(vview(view)),
                ..vview(*old(self))
            }),
    {
        self.subviews.push(view);
        proof {
            assert(children_view(final(self).subviews@) =~= children_view(
                old(self).subviews@,
            ).push(vview(view)));
            assert(vview(*final(self)) =~= (ViewModel {
                children: vview(*old(self)).children.push(vview(view)),
                ..vview(*old(self))
            }));
        }
    }

    /// Sets the background color the widget draws and marks it for
    /// redisplay.
    pub fn set_background_color(&mut self, color: &Color)
        ensures
            vview(*final(self)) == (ViewModel {
                widget: WidgetModel {
                    background_color: Some(color.model()),
                    needs_display: true,
                    ..vview(*old(self)).widget
                },
                ..vview(*old(self))
            }),
    {
        self.widget.background_color = Some(*color);
        self.widget.needs_display = true;
        proof {
            assert(vview(*final(self)) =~= (ViewModel {
                widget: WidgetModel {
                    background_color: Some(color.model()),
                    needs_display: true,
                    ..vview(*old(self)).widget
                },
                ..vview(*old(self))
            }));
        }
    }

    /// The widget state this view owns.
    pub fn get_root_backing_node(&self) -> (r: &Widget)
        ensures
            *r == self.widget,
    {
        &self.widget
    }

    /// The child views.
    pub fn get_subviews(&self) -> (r: &Vec<ViewNode>)
        ensures
            r@ == self.subviews@,
    {
        &self.subviews
    }

    /// Sets whether the widget's autoresizing mask is translated into
    /// constraints.
    pub fn translates_resizing_mask_into_constraints(&mut self, translates: bool)
        ensures
            vview(*final(self)) == (ViewModel {
                widget: WidgetModel {
                    translates_autoresizing_mask: translates,
                    ..vview(*old(self)).widget
                },
                ..vview(*old(self))
            }),
    {
        self.widget.translates_autoresizing_mask = translates;
        proof {
            assert(vview(*final(self)) =~= (ViewModel {
                widget: WidgetModel {
                    translates_autoresizing_mask: translates,
                    ..vview(*old(self)).widget
                },
                ..vview(*old(self))
            }));
        }
    }

    /// Registers a fixed-width constraint.
    pub fn set_width(&mut self, width: i64)
        ensures
            vview(*final(self)) == (ViewModel { width: Some(width as int), ..vview(*old(self)) }),
    {
        self.width = Some(width);
        proof {
            assert(vview(*final(self)) =~= (ViewModel {
                width: Some(width as int),
                ..vview(*old(self))
            }));
        }
    }

    /// Registers a fixed-height constraint.
    pub fn set_height(&mut self, height: i64)
        ensures
            vview(*final(self)) == (ViewModel { height: Some(height as int), ..vview(*old(self)) }),
    {
        self.height = Some(height);
        proof {
            assert(vview(*final(self)) =~= (ViewModel {
                height: Some(height as int),
                ..vview(*old(self))
            }));
        }
    }

    /// Pins this view's top edge to the sibling's top edge, offset by the
    /// margin.
    pub fn top_relative_to(&mut self, view: &ViewNode, margin: i32)
        ensures
            vview(*final(self)) == (ViewModel {
                top: Some((view.name@, margin as int)),
                ..vview(*old(self))
            }),
    {
        self.top = Some((view.name.clone(), margin as i64));
        proof {
            assert(vview(*final(self)) =~= (ViewModel {
                top: Some((view.name@, margin as int)),
                ..vview(*old(self))
            }));
        }
    }

    /// Pins this view's leading edge to the sibling's leading edge, offset
    /// by the margin.
    pub fn leading_relative_to(&mut self, view: &ViewNode, margin: i32)
        ensures
            vview(*final(self)) == (ViewModel {
                leading: Some((view.name@, margin as int)),
                ..vview(*old(self))
            }),
    {
        self.leading = Some((view.name.clone(), margin as i64));
        proof {
            assert(vview(*final(self)) =~= (ViewModel {
                leading: Some((view.name@, margin as int)),
                ..vview(*old(self))
            }));
        }
    }

    /// Pins this view's trailing edge to the sibling's trailing edge; the
    /// margin is negated, so a positive margin insets the view.
    pub fn trailing_relative_to(&mut self, view: &ViewNode, margin: i32)
        ensures
            vview(*final(self)) == (ViewModel {
                trailing: Some((view.name@, -(margin as int))),
                ..vview(*old(self))
            }),
    {
        self.trailing = Some((view.name.clone(), -(margin as i64)));
        proof {
            assert(vview(*final(self)) =~= (ViewModel {
                trailing: Some((view.name@, -(margin as int))),
                ..vview(*old(self))
            }));
        }
    }

    /// Pins this view's bottom edge to the sibling's bottom edge; the
    /// margin is negated, so a positive margin insets the view.
    pub fn bottom_relative_to(&mut self, view: &ViewNode, margin: i32)
        ensures
            vview(*final(self)) == (ViewModel {
                bottom: Some((view.name@, -(margin as int))),
                ..vview(*old(self))
            }),
    {
        self.bottom = Some((view.name.clone(), -(margin as i64)));
        proof {
            assert(vview(*final(self)) =~= (ViewModel {
                bottom: Some((view.name@, -(margin as int))),
                ..vview(*old(self))
            }));
        }
    }
}

/// A single geometric constraint, ready for batch activation: a fixed
/// size, or an edge pinned to the same edge of a named sibling at a fixed
/// offset.
#[derive(Debug, PartialEq, Eq)]
pub enum LayoutConstraint {
    Width(i64),
    Height(i64),
    Top(String, i64),
    Leading(String, i64),
    Trailing(String, i64),
    Bottom(String, i64),
}

/// The model of a single constraint.
pub enum LayoutConstraintV {
    Width(int),
    Height(int),
    Top(Seq<char>, int),
    Leading(Seq<char>, int),
    Trailing(Seq<char>, int),
    Bottom(Seq<char>, int),
}

/// The model of a stored constraint.
pub open spec fn cview(c: LayoutConstraint) -> LayoutConstraintV {
    match c {
        LayoutConstraint::Width(x) => LayoutConstraintV::Width(x as int),
        LayoutConstraint::Height(x) => LayoutConstraintV::Height(x as int),
        LayoutConstraint::Top(s, x) => LayoutConstraintV::Top(s@, x as int),
        LayoutConstraint::Leading(s, x) => LayoutConstraintV::Leading(s@, x as int),
        LayoutConstraint::Trailing(s, x) => LayoutConstraintV::Trailing(s@, x as int),
        LayoutConstraint::Bottom(s, x) => LayoutConstraintV::Bottom(s@, x as int),
    }
}

/// The batch a view submits for activation: whichever of the six
/// constraints are present, in the fixed order width, height, top,
/// leading, trailing, bottom.
pub open spec fn constraint_batch(m: ViewModel) -> Seq<LayoutConstraintV> {
    (match m.width {
        Some(w) => seq![LayoutConstraintV::Width(w)],
        None => Seq::empty(),
    }) + (match m.height {
        Some(h) => seq![LayoutConstraintV::Height(h)],
        None => Seq::empty(),
    }) + (match m.top {
        Some(p) => seq![LayoutConstraintV::Top(p.0, p.1)],
        None => Seq::empty(),
    }) + (match m.leading {
        Some(p) => seq![LayoutConstraintV::Leading(p.0, p.1)],
        None => Seq::empty(),
    }) + (match m.trailing {
        Some(p) => seq![LayoutConstraintV::Trailing(p.0, p.1)],
        None => Seq::empty(),
    }) + (match m.bottom {
        Some(p) => seq![LayoutConstraintV::Bottom(p.0, p.1)],
        None => Seq::empty(),
    })
}

impl ViewNode {
    /// Collects whichever of the six constraints are present into one
    /// batch, in the fixed order width, height, top, leading, trailing,
    /// bottom, ready to be handed to a layout engine in one activation.
    pub fn activate_constraints(&self) -> (r: Vec<LayoutConstraint>)
        ensures
            r@.map_values(|c: LayoutConstraint| cview(c)) == constraint_batch(vview(*self)),
    {
        let mut out: Vec<LayoutConstraint> = Vec::new();
        match &self.width {
            Some(w) => out.push(LayoutConstraint::Width(*w)),
            None => (),
        }
        match &self.height {
            Some(h) => out.push(LayoutConstraint::Height(*h)),
            None => (),
        }
        match &self.top {
            Some(p) => out.push(LayoutConstraint::Top(p.0.clone(), p.1)),
            None => (),
        }
        match &self.leading {
            Some(p) => out.push(LayoutConstraint::Leading(p.0.clone(), p.1)),
            None => (),
        }
        match &self.trailing {
            Some(p) => out.push(LayoutConstraint::Trailing(p.0.clone(), p.1)),
            None => (),
        }
        match &self.bottom {
            Some(p) => out.push(LayoutConstraint::Bottom(p.0.clone(), p.1)),
            None => (),
        }
        proof {
            assert(out@.map_values(|c: LayoutConstraint| cview(c)) =~= constraint_batch(
                vview(*self),
            ));
        }
        out
    }
}

/// What happens when a view's name is absent from the style tree.
#[derive(Clone, Copy, Debug, PartialEq, Eq, Structural)]
pub enum MissingKeyPolicy {
    /// The lookup failure is an error, as in a fatal lookup.
    Fail,
    /// The node is left unstyled; its children are still styled.
    Skip,
}

/// A node's own styling: its style block (the top-level field named like
/// the node) is looked up; an absent block follows the policy; a present
/// block may set the background color (any error in the color node is
/// fatal) and then the width and height constraints.
pub open spec fn styled_fields(m: ViewModel, styles: JsonV, p: MissingKeyPolicy) -> Result<
    ViewModel,
    StyleError,
> {
    match node_field(styles, m.name) {
        None => match p {
            MissingKeyPolicy::Fail => Err(StyleError::StyleKeyNotFound),
            MissingKeyPolicy::Skip => Ok(m),
        },
        Some(block) => match styled_background(m, block) {
            Err(e) => Err(e),
            Ok(m1) => Ok(styled_sizes(m1, block)),
        },
    }
}

/// The background-color part of a node's styling: a "backgroundColor"
/// field, when present, must parse as a color; the parsed color is set on
/// the widget, which is marked for redisplay.
pub open spec fn styled_background(m: ViewModel, block: JsonV) -> Result<ViewModel, StyleError> {
    match node_field(block, "backgroundColor"@) {
        None => Ok(m),
        Some(cnode) => match color_from_node(cnode) {
            Ok(c) => Ok(
                ViewModel {
                    widget: WidgetModel {
                        background_color: Some(c),
                        needs_display: true,
                        ..m.widget
                    },
                    ..m
                },
            ),
            Err(e) => Err(e),
        },
    }
}

/// The size part of a node's styling: integer "width" and "height" fields
/// become fixed size constraints; absent or non-integer fields are
/// ignored.
pub open spec fn styled_sizes(m: ViewModel, block: JsonV) -> ViewModel {
    let m1 = match node_field(block, "width"@) {
        Some(JsonV::Int(w)) => ViewModel { width: Some(w), ..m },
        _ => m,
    };
    match node_field(block, "height"@) {
        Some(JsonV::Int(h)) => ViewModel { height: Some(h), ..m1 },
        _ => m1,
    }
}

/// The result of a full style pass over a node: its own styling, then its
/// children in order against the same flat style tree; the first error
/// wins.
pub open spec fn styled(m: ViewModel, styles: JsonV, p: MissingKeyPolicy) -> Result<
    ViewModel,
    StyleError,
>
    decreases m, 0int,
{
    match styled_fields(m, styles, p) {
        Err(e) => Err(e),
        Ok(m1) => match styled_children(m.children, styles, p, m.children.len() as int) {
            Err(e) => Err(e),
            Ok(cs) => Ok(ViewModel { children: cs, ..m1 }),
        },
    }
}

/// The style pass over the first `n` of the child models `cs`: their
/// styled models in order, or the first error.
pub open spec fn styled_children(
    cs: Seq<ViewModel>,
    styles: JsonV,
    p: MissingKeyPolicy,
    n: int,
) -> Result<Seq<ViewModel>, StyleError>
    decreases cs, n,
{
    if n <= 0 {
        Ok(Seq::empty())
    } else {
        match styled_children(cs, styles, p, n - 1) {
            Err(e) => Err(e),
            Ok(pre) => if n > cs.len() {
                Ok(pre)
            } else {
                match styled(cs[n - 1], styles, p) {
                    Err(e) => Err(e),
                    Ok(mm) => Ok(pre.push(mm)),
                }
            },
        }
    }
}

/// Once a prefix of the children fails, every longer prefix fails the
/// same way.
proof fn lemma_styled_children_err(
    cs: Seq<ViewModel>,
    styles: JsonV,
    p: MissingKeyPolicy,
    n1: int,
    n2: int,
)
    requires
        0 <= n1 <= n2,
        styled_children(cs, styles, p, n1) is Err,
    ensures
        styled_children(cs, styles, p, n2) == styled_children(cs, styles, p, n1),
    decreases n2 - n1,
{
    if n1 < n2 {
        lemma_styled_children_err(cs, styles, p, n1, n2 - 1);
    }
}

/// Clone of an optional relative constraint.
fn clone_rel(o: &Option<(String, i64)>) -> (r: Option<(String, i64)>)
    ensures
        r == *o,
{
    match o {
        Some(p) => Some((p.0.clone(), p.1)),
        None => None,
    }
}

/// A styled copy of the view: the functional core of `apply_styles`.
#[verifier::loop_isolation(false)]
pub(crate) fn styled_view(v: &ViewNode, styles: &Json, p: MissingKeyPolicy) -> (r: Result<
    ViewNode,
    StyleError,
>)
    ensures
        match r {
            Ok(sv) => styled(vview(*v), jview(*styles), p) == Ok::<ViewModel, StyleError>(
                vview(sv),
            ),
            Err(e) => styled(vview(*v), jview(*styles), p) == Err::<ViewModel, StyleError>(e),
        },
    decreases *v,
{
    let mut widget = v.widget;
    let mut width = v.width;
    let mut height = v.height;
    match styles.get(&v.name) {
        None => {
            match p {
                MissingKeyPolicy::Fail => {
                    return Err(StyleError::StyleKeyNotFound);
                },
                MissingKeyPolicy::Skip => (),
            }
        },
        Some(block) => {
            let bg_key: String = "backgroundColor".to_owned();
            match block.get(&bg_key) {
                None => (),
                Some(cnode) => match Color::from_json(cnode) {
                    Ok(c) => {
                        widget.background_color = Some(c);
                        widget.needs_display = true;
                    },
                    Err(e) => {
                        return Err(e);
                    },
                },
            }
            let width_key: String = "width".to_owned();
            match block.get(&width_key) {
                Some(Json::Int(w)) => {
                    width = Some(*w);
                },
                _ => (),
            }
            let height_key: String = "height".to_owned();
            match block.get(&height_key) {
                Some(Json::Int(h)) => {
                    height = Some(*h);
                },
                _ => (),
            }
        },
    }
    let ghost m1 = match styled_fields(vview(*v), jview(*styles), p) {
        Ok(mm) => mm,
        Err(_) => arbitrary(),
    };
    proof {
        assert(styled_fields(vview(*v), jview(*styles), p) is Ok);
        assert(m1 == (ViewModel {
            widget: wview(widget),
            width: size_view(width),
            height: size_view(height),
            ..vview(*v)
        }));
    }
    let mut new_children: Vec<ViewNode> = Vec::new();
    proof {
        assert(children_view(new_children@) =~= Seq::empty());
    }
    let mut ci: usize = 0;
    while ci < v.subviews.len()
        invariant
            ci <= v.subviews@.len(),
            new_children@.len() == ci as int,
            styled_children(vview(*v).children, jview(*styles), p, ci as int) == Ok::<
                Seq<ViewModel>,
                StyleError,
            >(children_view(new_children@)),
        decreases v.subviews@.len() - ci,
    {
        proof {
            assert(decreases_to!(*v => v.subviews));
            assert(decreases_to!(v.subviews => v.subviews@));
            assert(decreases_to!(v.subviews@ => v.subviews@[ci as int]));
        }
        let sub = styled_view(&v.subviews[ci], styles, p);
        proof {
            assert(vview(*v).children[ci as int] == vview(v.subviews@[ci as int]));
        }
        let ghost prev_children = new_children@;
        match sub {
            Ok(sv) => {
                new_children.push(sv);
                proof {
                    assert(children_view(new_children@) =~= children_view(prev_children).push(
                        vview(sv),
                    ));
                }
            },
            Err(e) => {
                proof {
                    lemma_styled_children_err(
                        vview(*v).children,
                        jview(*styles),
                        p,
                        ci + 1,
                        vview(*v).children.len() as int,
                    );
                }
                return Err(e);
            },
        }
        ci = ci + 1;
    }
    let out = ViewNode {
        kind: v.kind,
        name: v.name.clone(),
        widget,
        width,
        height,
        top: clone_rel(&v.top),
        leading: clone_rel(&v.leading),
        trailing: clone_rel(&v.trailing),
        bottom: clone_rel(&v.bottom),
        subviews: new_children,
    };
    proof {
        assert(vview(out) =~= (ViewModel { children: children_view(out.subviews@), ..m1 }));
    }
    Ok(out)
}

impl ViewNode {
    /// Applies the flat style tree to this node and, recursively, to its
    /// children: each node looks itself up by its own name at the top
    /// level of the tree. On an error the tree is left as it was.
    pub fn apply_styles(&mut self, styles: &Json, policy: MissingKeyPolicy) -> (r: Result<
        (),
        StyleError,
    >)
        ensures
            match r {
                Ok(_) => styled(vview(*old(self)), jview(*styles), policy) == Ok::<
                    ViewModel,
                    StyleError,
                >(vview(*final(self))),
                Err(e) => styled(vview(*old(self)), jview(*styles), policy) == Err::<
                    ViewModel,
                    StyleError,
                >(e) && *final(self) == *old(self),
            },
    {
        match styled_view(self, styles, policy) {
            Ok(sv) => {
                *self = sv;
                Ok(())
            },
            Err(e) => Err(e),
        }
    }
}

} // verus!
