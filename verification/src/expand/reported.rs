//! What expanding a view reports, as a function of its syntax tree.
//!
//! Expansion reports what it cannot expand and goes on. Each function here
//! states, in the order they are reported, the diagnostics of the part of
//! the tree it is named after; like the expansion itself, they recurse
//! through the tree.

use vstd::prelude::*;

use crate::ast::attribute::directive::Directive;
use crate::ast::attribute::Attr;
use crate::ast::children::{node_children, Child, NodeChild};
use crate::ast::doctype::Doctype;
use crate::ast::element::Element;
use crate::ast::tag::Tag;
use crate::ast::value::value_reports;
use crate::expand::expansion::{component_path, component_path_span, doctype_error, is_clone_directive};
use crate::expand::subroutines::{any_attr_path, any_attr_reports, clone_reports, xml_directive_reports};
use crate::expand::utils::{fn_generics_reports, modifier_reports};
use crate::parse::{report, report_help, Report};

verus! {

/// What the attributes of an HTML-like element report, in order: the values
/// of key-value attributes and the directives.
pub open spec fn xml_attr_reports(attrs: Seq<Attr>) -> Seq<Report>
    decreases attrs.len(),
{
    if attrs.len() == 0 {
        Seq::empty()
    } else {
        xml_attr_reports(attrs.drop_last()) + match attrs.last() {
            Attr::Kv(kv) => value_reports(kv.spec_value()),
            Attr::Directive(d) => if d.dir is Ident {
                xml_directive_reports(d)
            } else {
                Seq::empty()
            },
            Attr::Spread(_) => Seq::empty(),
        }
    }
}

/// The name of a directive as it is quoted in a diagnostic.
pub open spec fn quoted_dir_name(d: Directive) -> Seq<char> {
    if d.dir is Ident {
        d.dir.text()
    } else {
        Seq::empty()
    }
}

/// What a directive on a component (or, with `is_slot`, on a slot)
/// reports. `clone:` reports its modifier twice: once as any directive of a
/// component does, once as `clone:`.
pub open spec fn component_directive_reports(d: Directive, is_slot: bool) -> Seq<Report> {
    if is_clone_directive(d) {
        modifier_reports(d.modifier) + clone_reports(d)
    } else if is_slot {
        seq![report(d.dir.spec_span(), "`"@ + quoted_dir_name(d) + ":` is not supported on slots"@)]
    } else if d.dir is Ident && any_attr_path(d) is Some {
        any_attr_reports(d)
    } else {
        seq![report(d.dir.spec_span(), "unknown directive"@)]
    }
}

/// What the attributes of a component (or, with `is_slot`, of a slot)
/// report, in order.
pub open spec fn component_attr_reports(attrs: Seq<Attr>, is_slot: bool) -> Seq<Report>
    decreases attrs.len(),
{
    if attrs.len() == 0 {
        Seq::empty()
    } else {
        component_attr_reports(attrs.drop_last(), is_slot) + match attrs.last() {
            Attr::Kv(kv) => value_reports(kv.spec_value()),
            Attr::Spread(sp) => if is_slot {
                seq![report(sp.spec_braces(), "spread syntax is not supported on slots"@)]
            } else {
                Seq::empty()
            },
            Attr::Directive(d) => component_directive_reports(d, is_slot),
        }
    }
}

/// What a doctype reports: the first part of `!DOCTYPE html;` that is
/// missing.
pub open spec fn doctype_reports(d: Doctype) -> Seq<Report> {
    match doctype_error(d) {
        Some((sp, m)) => seq![report_help(sp, m, "Add `!DOCTYPE html;`"@)],
        None => Seq::empty(),
    }
}

/// What a node reports as it expands.
pub open spec fn node_reports(n: NodeChild) -> Seq<Report>
    decreases n, 9nat,
{
    match n {
        NodeChild::Value(v) => value_reports(v),
        NodeChild::Element(e) => element_reports(e),
        NodeChild::Doctype(d) => doctype_reports(d),
    }
}

/// What an element reports as it expands.
pub open spec fn element_reports(e: Element) -> Seq<Report>
    decreases e, 8nat,
{
    if e.tag is Component {
        component_reports(e, false)
    } else {
        xml_reports(e)
    }
}

/// What an HTML-like element reports: its attributes, then its children
/// that are not slots.
pub open spec fn xml_reports(e: Element) -> Seq<Report>
    decreases e, 7nat,
{
    if e.tag is Component {
        Seq::empty()
    } else {
        xml_attr_reports(e.attrs.0@) + match e.children {
            Some(c) => nodes_reports(c.0@),
            None => Seq::empty(),
        }
    }
}

/// What the children that are not slots report, in order.
pub open spec fn nodes_reports(cs: Seq<Child>) -> Seq<Report>
    decreases cs, 6nat,
{
    if cs.len() == 0 {
        Seq::empty()
    } else {
        nodes_reports(cs.subrange(0, cs.len() - 1)) + match cs[cs.len() - 1] {
            Child::Node(n) => node_reports(n),
            Child::Slot(..) => Seq::empty(),
        }
    }
}

/// What the slots among the children report, in order: a slot that is no
/// component, or whose name is a path, is reported; any other reports what
/// its expansion does.
pub open spec fn slot_reports(cs: Seq<Child>) -> Seq<Report>
    decreases cs, 6nat,
{
    if cs.len() == 0 {
        Seq::empty()
    } else {
        slot_reports(cs.subrange(0, cs.len() - 1)) + match cs[cs.len() - 1] {
            Child::Slot(_, el) => match el.tag {
                Tag::Component(name, generics) => if generics is Some {
                    seq![report(component_path_span(name, generics), "slot name must be a single ident, not a path"@)]
                } else {
                    component_reports(el, true)
                },
                _ => seq![report(el.tag.spec_span(), "called `slots_to_tokens` on non-slot element"@)],
            },
            Child::Node(_) => Seq::empty(),
        }
    }
}

/// What a component (or, with `is_slot`, a slot) reports: parenthesized
/// arguments in its path, then what its parts report.
pub open spec fn component_reports(e: Element, is_slot: bool) -> Seq<Report>
    decreases e, 7nat,
{
    match e.tag {
        Tag::Component(name, generics) => fn_generics_reports(component_path(name, generics))
            + component_parts_reports(e, is_slot),
        _ => Seq::empty(),
    }
}

/// What the parts of a component (or, with `is_slot`, a slot) report:
/// shorthands on a slot, its attributes, its children that are not slots,
/// then its slots.
pub open spec fn component_parts_reports(e: Element, is_slot: bool) -> Seq<Report>
    decreases e, 6nat,
{
    let sels = e.selectors.0@;
    (if is_slot && sels.len() > 0 {
        seq![report(sels[0].prefix_span(), "selector shorthands are not supported on slots"@)]
    } else {
        Seq::empty()
    }) + component_attr_reports(e.attrs.0@, is_slot) + match e.children {
        Some(c) => (if node_children(c.0@).len() > 0 {
            nodes_reports(c.0@)
        } else {
            Seq::empty()
        }) + slot_reports(c.0@),
        None => Seq::empty(),
    }
}

/// The reports of a list of attributes that is one attribute longer.
pub proof fn lemma_attr_reports_step(s: Seq<Attr>, i: int, is_slot: bool)
    requires
        0 <= i < s.len(),
    ensures
        xml_attr_reports(s.subrange(0, i + 1)) == xml_attr_reports(s.subrange(0, i)) + match s[i] {
            Attr::Kv(kv) => value_reports(kv.spec_value()),
            Attr::Directive(d) => if d.dir is Ident {
                xml_directive_reports(d)
            } else {
                Seq::empty()
            },
            Attr::Spread(_) => Seq::empty(),
        },
        component_attr_reports(s.subrange(0, i + 1), is_slot) == component_attr_reports(s.subrange(0, i), is_slot)
            + match s[i] {
            Attr::Kv(kv) => value_reports(kv.spec_value()),
            Attr::Spread(sp) => if is_slot {
                seq![report(sp.spec_braces(), "spread syntax is not supported on slots"@)]
            } else {
                Seq::empty()
            },
            Attr::Directive(d) => component_directive_reports(d, is_slot),
        },
{
    assert(s.subrange(0, i + 1).drop_last() =~= s.subrange(0, i));
}

} // verus!
