use vstd::prelude::*;
use vstd::string::StringSliceAdditionalSpecFns;
use crate::grammar::lexical::{
    byte, keyword, literal, one, run, trivia, Class, AT, COLON, DOT, LEFT_PAREN, QUESTION,
    RIGHT_PAREN,
};
use crate::grammar::step::{either, join, opt};
use crate::grammar::{members, names, types};
use crate::nesting::forest::{
    lemma_byte_nested, lemma_keyword_nested, lemma_literal_nested, lemma_one_nested,
    lemma_run_nested, lemma_trivia_nested,
};
use crate::rule::Rule;
use crate::shifting::moved::{
    lemma_byte_moved, lemma_keyword_moved, lemma_literal_moved, lemma_moved_either,
    lemma_moved_join, lemma_moved_node, lemma_moved_opt, lemma_moved_quiet, lemma_one_moved,
    lemma_run_moved, lemma_same_from_later, lemma_trivia_moved, moved, same_from,
};

verus! {

/// `receiver_self` does the same where the same text stands at another offset.
pub proof fn lemma_receiver_self_moved(s: Seq<u8>, p: int, t: Seq<u8>, k: int)
    requires
        same_from(s, p, t, k),
    ensures
        members::receiver_self(t, p + k) == moved(members::receiver_self(s, p), k),
{
    reveal(members::receiver_self);
    lemma_keyword_nested(s, p, "self".spec_bytes());
    lemma_keyword_moved(s, p, t, k, "self".spec_bytes());
    let a = keyword(s, p, "self".spec_bytes());
    if a.ok {
        lemma_same_from_later(s, p, t, k, a.end);
        lemma_trivia_nested(s, a.end);
        lemma_trivia_moved(s, a.end, t, k);
    }
    crate::nesting::forest::lemma_join_nested(s, p, a, trivia(s, a.end));
    lemma_moved_join(a, trivia(s, a.end), k);
    let b = join(a, trivia(s, a.end));
    if b.ok {
        lemma_same_from_later(s, p, t, k, b.end);
        lemma_byte_nested(s, b.end, DOT);
        lemma_byte_moved(s, b.end, t, k, DOT);
    }
    crate::nesting::forest::lemma_join_nested(s, p, b, byte(s, b.end, DOT));
    lemma_moved_join(b, byte(s, b.end, DOT), k);
    let c = join(b, byte(s, b.end, DOT));
    lemma_moved_node(Rule::ReceiverSelf, p, c, k);
}

/// `receiver_self_or_instance` does the same where the same text stands at another offset.
pub proof fn lemma_receiver_self_or_instance_moved(s: Seq<u8>, p: int, t: Seq<u8>, k: int)
    requires
        same_from(s, p, t, k),
    ensures
        members::receiver_self_or_instance(t, p + k) == moved(members::receiver_self_or_instance(s, p), k),
{
    reveal(members::receiver_self_or_instance);
    lemma_keyword_nested(s, p, "self".spec_bytes());
    lemma_keyword_moved(s, p, t, k, "self".spec_bytes());
    let a = keyword(s, p, "self".spec_bytes());
    if a.ok {
        lemma_same_from_later(s, p, t, k, a.end);
        lemma_trivia_nested(s, a.end);
        lemma_trivia_moved(s, a.end, t, k);
    }
    crate::nesting::forest::lemma_join_nested(s, p, a, trivia(s, a.end));
    lemma_moved_join(a, trivia(s, a.end), k);
    let b = join(a, trivia(s, a.end));
    if b.ok {
        lemma_same_from_later(s, p, t, k, b.end);
        lemma_byte_nested(s, b.end, QUESTION);
        lemma_byte_moved(s, b.end, t, k, QUESTION);
    }
    crate::nesting::forest::lemma_join_nested(s, p, b, byte(s, b.end, QUESTION));
    lemma_moved_join(b, byte(s, b.end, QUESTION), k);
    let c = join(b, byte(s, b.end, QUESTION));
    if c.ok {
        lemma_same_from_later(s, p, t, k, c.end);
        lemma_trivia_nested(s, c.end);
        lemma_trivia_moved(s, c.end, t, k);
    }
    crate::nesting::forest::lemma_join_nested(s, p, c, trivia(s, c.end));
    lemma_moved_join(c, trivia(s, c.end), k);
    let d = join(c, trivia(s, c.end));
    if d.ok {
        lemma_same_from_later(s, p, t, k, d.end);
        lemma_byte_nested(s, d.end, DOT);
        lemma_byte_moved(s, d.end, t, k, DOT);
    }
    crate::nesting::forest::lemma_join_nested(s, p, d, byte(s, d.end, DOT));
    lemma_moved_join(d, byte(s, d.end, DOT), k);
    let e = join(d, byte(s, d.end, DOT));
    lemma_moved_node(Rule::ReceiverSelfOrInstance, p, e, k);
}

/// `spaced_receiver` does the same where the same text stands at another offset.
pub proof fn lemma_spaced_receiver_moved(s: Seq<u8>, p: int, t: Seq<u8>, k: int)
    requires
        same_from(s, p, t, k),
    ensures
        members::spaced_receiver(t, p + k) == moved(members::spaced_receiver(s, p), k),
{
    reveal(members::spaced_receiver);
    crate::nesting::members::lemma_receiver_self_or_instance_nested(s, p);
    crate::shifting::members::lemma_receiver_self_or_instance_moved(s, p, t, k);
    crate::nesting::members::lemma_receiver_self_nested(s, p);
    crate::shifting::members::lemma_receiver_self_moved(s, p, t, k);
    lemma_moved_either(members::receiver_self_or_instance(s, p), members::receiver_self(s, p), k);
    let a = either(members::receiver_self_or_instance(s, p), members::receiver_self(s, p));
    if a.ok {
        lemma_same_from_later(s, p, t, k, a.end);
        lemma_trivia_nested(s, a.end);
        lemma_trivia_moved(s, a.end, t, k);
    }
    crate::nesting::forest::lemma_join_nested(s, p, a, trivia(s, a.end));
    lemma_moved_join(a, trivia(s, a.end), k);
    let b = join(a, trivia(s, a.end));
    lemma_moved_quiet(p, b, k);
}

/// `spaced_receiver_self` does the same where the same text stands at another offset.
pub proof fn lemma_spaced_receiver_self_moved(s: Seq<u8>, p: int, t: Seq<u8>, k: int)
    requires
        same_from(s, p, t, k),
    ensures
        members::spaced_receiver_self(t, p + k) == moved(members::spaced_receiver_self(s, p), k),
{
    reveal(members::spaced_receiver_self);
    crate::nesting::members::lemma_receiver_self_nested(s, p);
    crate::shifting::members::lemma_receiver_self_moved(s, p, t, k);
    let a = members::receiver_self(s, p);
    if a.ok {
        lemma_same_from_later(s, p, t, k, a.end);
        lemma_trivia_nested(s, a.end);
        lemma_trivia_moved(s, a.end, t, k);
    }
    crate::nesting::forest::lemma_join_nested(s, p, a, trivia(s, a.end));
    lemma_moved_join(a, trivia(s, a.end), k);
    let b = join(a, trivia(s, a.end));
    lemma_moved_quiet(p, b, k);
}

/// `method_name` does the same where the same text stands at another offset.
pub proof fn lemma_method_name_moved(s: Seq<u8>, p: int, t: Seq<u8>, k: int)
    requires
        same_from(s, p, t, k),
    ensures
        members::method_name(t, p + k) == moved(members::method_name(s, p), k),
{
    reveal(members::method_name);
    crate::nesting::names::lemma_lower_ident_nested(s, p);
    crate::shifting::names::lemma_lower_ident_moved(s, p, t, k);
    let a = names::lower_ident(s, p);
    if a.ok {
        lemma_same_from_later(s, p, t, k, a.end);
        lemma_one_nested(s, a.end, Class::Suffix);
        lemma_one_moved(s, a.end, t, k, Class::Suffix);
        lemma_moved_opt(a.end, one(s, a.end, Class::Suffix), k);
    }
    crate::nesting::forest::lemma_join_nested(s, p, a, opt(a.end, one(s, a.end, Class::Suffix)));
    lemma_moved_join(a, opt(a.end, one(s, a.end, Class::Suffix)), k);
    let b = join(a, opt(a.end, one(s, a.end, Class::Suffix)));
    lemma_moved_node(Rule::MethodName, p, b, k);
}

/// `spaced_type_list` does the same where the same text stands at another offset.
pub proof fn lemma_spaced_type_list_moved(s: Seq<u8>, p: int, t: Seq<u8>, k: int)
    requires
        same_from(s, p, t, k),
    ensures
        members::spaced_type_list(t, p + k) == moved(members::spaced_type_list(s, p), k),
{
    reveal(members::spaced_type_list);
    crate::nesting::types::lemma_type_list_nested(s, p);
    crate::shifting::types::lemma_type_list_moved(s, p, t, k);
    let a = types::type_list(s, p);
    if a.ok {
        lemma_same_from_later(s, p, t, k, a.end);
        lemma_trivia_nested(s, a.end);
        lemma_trivia_moved(s, a.end, t, k);
    }
    crate::nesting::forest::lemma_join_nested(s, p, a, trivia(s, a.end));
    lemma_moved_join(a, trivia(s, a.end), k);
    let b = join(a, trivia(s, a.end));
    lemma_moved_quiet(p, b, k);
}

/// `params` does the same where the same text stands at another offset.
pub proof fn lemma_params_moved(s: Seq<u8>, p: int, t: Seq<u8>, k: int)
    requires
        same_from(s, p, t, k),
    ensures
        members::params(t, p + k) == moved(members::params(s, p), k),
{
    reveal(members::params);
    lemma_byte_nested(s, p, LEFT_PAREN);
    lemma_byte_moved(s, p, t, k, LEFT_PAREN);
    let a = byte(s, p, LEFT_PAREN);
    if a.ok {
        lemma_same_from_later(s, p, t, k, a.end);
        lemma_trivia_nested(s, a.end);
        lemma_trivia_moved(s, a.end, t, k);
    }
    crate::nesting::forest::lemma_join_nested(s, p, a, trivia(s, a.end));
    lemma_moved_join(a, trivia(s, a.end), k);
    let b = join(a, trivia(s, a.end));
    if b.ok {
        lemma_same_from_later(s, p, t, k, b.end);
        crate::nesting::members::lemma_spaced_type_list_nested(s, b.end);
        crate::shifting::members::lemma_spaced_type_list_moved(s, b.end, t, k);
        lemma_moved_opt(b.end, members::spaced_type_list(s, b.end), k);
    }
    crate::nesting::forest::lemma_join_nested(
        s,
        p,
        b,
        opt(b.end, members::spaced_type_list(s, b.end)),
    );
    lemma_moved_join(b, opt(b.end, members::spaced_type_list(s, b.end)), k);
    let c = join(b, opt(b.end, members::spaced_type_list(s, b.end)));
    if c.ok {
        lemma_same_from_later(s, p, t, k, c.end);
        lemma_byte_nested(s, c.end, RIGHT_PAREN);
        lemma_byte_moved(s, c.end, t, k, RIGHT_PAREN);
    }
    crate::nesting::forest::lemma_join_nested(s, p, c, byte(s, c.end, RIGHT_PAREN));
    lemma_moved_join(c, byte(s, c.end, RIGHT_PAREN), k);
    let d = join(c, byte(s, c.end, RIGHT_PAREN));
    lemma_moved_node(Rule::Params, p, d, k);
}

/// `method_type` does the same where the same text stands at another offset.
pub proof fn lemma_method_type_moved(s: Seq<u8>, p: int, t: Seq<u8>, k: int)
    requires
        same_from(s, p, t, k),
    ensures
        members::method_type(t, p + k) == moved(members::method_type(s, p), k),
{
    reveal(members::method_type);
    crate::nesting::members::lemma_params_nested(s, p);
    crate::shifting::members::lemma_params_moved(s, p, t, k);
    let a = members::params(s, p);
    if a.ok {
        lemma_same_from_later(s, p, t, k, a.end);
        lemma_trivia_nested(s, a.end);
        lemma_trivia_moved(s, a.end, t, k);
    }
    crate::nesting::forest::lemma_join_nested(s, p, a, trivia(s, a.end));
    lemma_moved_join(a, trivia(s, a.end), k);
    let b = join(a, trivia(s, a.end));
    if b.ok {
        lemma_same_from_later(s, p, t, k, b.end);
        lemma_literal_nested(s, b.end, "->".spec_bytes());
        lemma_literal_moved(s, b.end, t, k, "->".spec_bytes());
    }
    crate::nesting::forest::lemma_join_nested(s, p, b, literal(s, b.end, "->".spec_bytes()));
    lemma_moved_join(b, literal(s, b.end, "->".spec_bytes()), k);
    let c = join(b, literal(s, b.end, "->".spec_bytes()));
    if c.ok {
        lemma_same_from_later(s, p, t, k, c.end);
        lemma_trivia_nested(s, c.end);
        lemma_trivia_moved(s, c.end, t, k);
    }
    crate::nesting::forest::lemma_join_nested(s, p, c, trivia(s, c.end));
    lemma_moved_join(c, trivia(s, c.end), k);
    let d = join(c, trivia(s, c.end));
    if d.ok {
        lemma_same_from_later(s, p, t, k, d.end);
        crate::nesting::types::lemma_type_expr_nested(s, d.end);
        crate::shifting::types::lemma_type_expr_moved(s, d.end, t, k);
    }
    crate::nesting::forest::lemma_join_nested(s, p, d, types::type_expr(s, d.end));
    lemma_moved_join(d, types::type_expr(s, d.end), k);
    let e = join(d, types::type_expr(s, d.end));
    lemma_moved_node(Rule::MethodType, p, e, k);
}

/// `member_method` does the same where the same text stands at another offset.
pub proof fn lemma_member_method_moved(s: Seq<u8>, p: int, t: Seq<u8>, k: int)
    requires
        same_from(s, p, t, k),
    ensures
        members::member_method(t, p + k) == moved(members::member_method(s, p), k),
{
    reveal(members::member_method);
    lemma_keyword_nested(s, p, "def".spec_bytes());
    lemma_keyword_moved(s, p, t, k, "def".spec_bytes());
    let a = keyword(s, p, "def".spec_bytes());
    if a.ok {
        lemma_same_from_later(s, p, t, k, a.end);
        lemma_trivia_nested(s, a.end);
        lemma_trivia_moved(s, a.end, t, k);
    }
    crate::nesting::forest::lemma_join_nested(s, p, a, trivia(s, a.end));
    lemma_moved_join(a, trivia(s, a.end), k);
    let b = join(a, trivia(s, a.end));
    if b.ok {
        lemma_same_from_later(s, p, t, k, b.end);
        crate::nesting::members::lemma_spaced_receiver_nested(s, b.end);
        crate::shifting::members::lemma_spaced_receiver_moved(s, b.end, t, k);
        lemma_moved_opt(b.end, members::spaced_receiver(s, b.end), k);
    }
    crate::nesting::forest::lemma_join_nested(
        s,
        p,
        b,
        opt(b.end, members::spaced_receiver(s, b.end)),
    );
    lemma_moved_join(b, opt(b.end, members::spaced_receiver(s, b.end)), k);
    let c = join(b, opt(b.end, members::spaced_receiver(s, b.end)));
    if c.ok {
        lemma_same_from_later(s, p, t, k, c.end);
        crate::nesting::members::lemma_method_name_nested(s, c.end);
        crate::shifting::members::lemma_method_name_moved(s, c.end, t, k);
    }
    crate::nesting::forest::lemma_join_nested(s, p, c, members::method_name(s, c.end));
    lemma_moved_join(c, members::method_name(s, c.end), k);
    let d = join(c, members::method_name(s, c.end));
    if d.ok {
        lemma_same_from_later(s, p, t, k, d.end);
        lemma_trivia_nested(s, d.end);
        lemma_trivia_moved(s, d.end, t, k);
    }
    crate::nesting::forest::lemma_join_nested(s, p, d, trivia(s, d.end));
    lemma_moved_join(d, trivia(s, d.end), k);
    let e = join(d, trivia(s, d.end));
    if e.ok {
        lemma_same_from_later(s, p, t, k, e.end);
        lemma_byte_nested(s, e.end, COLON);
        lemma_byte_moved(s, e.end, t, k, COLON);
    }
    crate::nesting::forest::lemma_join_nested(s, p, e, byte(s, e.end, COLON));
    lemma_moved_join(e, byte(s, e.end, COLON), k);
    let f = join(e, byte(s, e.end, COLON));
    if f.ok {
        lemma_same_from_later(s, p, t, k, f.end);
        lemma_trivia_nested(s, f.end);
        lemma_trivia_moved(s, f.end, t, k);
    }
    crate::nesting::forest::lemma_join_nested(s, p, f, trivia(s, f.end));
    lemma_moved_join(f, trivia(s, f.end), k);
    let g = join(f, trivia(s, f.end));
    if g.ok {
        lemma_same_from_later(s, p, t, k, g.end);
        crate::nesting::members::lemma_method_type_nested(s, g.end);
        crate::shifting::members::lemma_method_type_moved(s, g.end, t, k);
    }
    crate::nesting::forest::lemma_join_nested(s, p, g, members::method_type(s, g.end));
    lemma_moved_join(g, members::method_type(s, g.end), k);
    let h = join(g, members::method_type(s, g.end));
    lemma_moved_node(Rule::MemberMethod, p, h, k);
}

/// `method_ref` does the same where the same text stands at another offset.
pub proof fn lemma_method_ref_moved(s: Seq<u8>, p: int, t: Seq<u8>, k: int)
    requires
        same_from(s, p, t, k),
    ensures
        members::method_ref(t, p + k) == moved(members::method_ref(s, p), k),
{
    reveal(members::method_ref);
    crate::nesting::members::lemma_spaced_receiver_self_nested(s, p);
    crate::shifting::members::lemma_spaced_receiver_self_moved(s, p, t, k);
    lemma_moved_opt(p, members::spaced_receiver_self(s, p), k);
    let a = opt(p, members::spaced_receiver_self(s, p));
    if a.ok {
        lemma_same_from_later(s, p, t, k, a.end);
        crate::nesting::members::lemma_method_name_nested(s, a.end);
        crate::shifting::members::lemma_method_name_moved(s, a.end, t, k);
    }
    crate::nesting::forest::lemma_join_nested(s, p, a, members::method_name(s, a.end));
    lemma_moved_join(a, members::method_name(s, a.end), k);
    let b = join(a, members::method_name(s, a.end));
    lemma_moved_node(Rule::MethodRef, p, b, k);
}

/// `member_alias` does the same where the same text stands at another offset.
pub proof fn lemma_member_alias_moved(s: Seq<u8>, p: int, t: Seq<u8>, k: int)
    requires
        same_from(s, p, t, k),
    ensures
        members::member_alias(t, p + k) == moved(members::member_alias(s, p), k),
{
    reveal(members::member_alias);
    lemma_keyword_nested(s, p, "alias".spec_bytes());
    lemma_keyword_moved(s, p, t, k, "alias".spec_bytes());
    let a = keyword(s, p, "alias".spec_bytes());
    if a.ok {
        lemma_same_from_later(s, p, t, k, a.end);
        lemma_trivia_nested(s, a.end);
        lemma_trivia_moved(s, a.end, t, k);
    }
    crate::nesting::forest::lemma_join_nested(s, p, a, trivia(s, a.end));
    lemma_moved_join(a, trivia(s, a.end), k);
    let b = join(a, trivia(s, a.end));
    if b.ok {
        lemma_same_from_later(s, p, t, k, b.end);
        crate::nesting::members::lemma_method_ref_nested(s, b.end);
        crate::shifting::members::lemma_method_ref_moved(s, b.end, t, k);
    }
    crate::nesting::forest::lemma_join_nested(s, p, b, members::method_ref(s, b.end));
    lemma_moved_join(b, members::method_ref(s, b.end), k);
    let c = join(b, members::method_ref(s, b.end));
    if c.ok {
        lemma_same_from_later(s, p, t, k, c.end);
        lemma_trivia_nested(s, c.end);
        lemma_trivia_moved(s, c.end, t, k);
    }
    crate::nesting::forest::lemma_join_nested(s, p, c, trivia(s, c.end));
    lemma_moved_join(c, trivia(s, c.end), k);
    let d = join(c, trivia(s, c.end));
    if d.ok {
        lemma_same_from_later(s, p, t, k, d.end);
        crate::nesting::members::lemma_method_ref_nested(s, d.end);
        crate::shifting::members::lemma_method_ref_moved(s, d.end, t, k);
    }
    crate::nesting::forest::lemma_join_nested(s, p, d, members::method_ref(s, d.end));
    lemma_moved_join(d, members::method_ref(s, d.end), k);
    let e = join(d, members::method_ref(s, d.end));
    lemma_moved_node(Rule::MemberAlias, p, e, k);
}

/// `attr_reader` does the same where the same text stands at another offset.
pub proof fn lemma_attr_reader_moved(s: Seq<u8>, p: int, t: Seq<u8>, k: int)
    requires
        same_from(s, p, t, k),
    ensures
        members::attr_reader(t, p + k) == moved(members::attr_reader(s, p), k),
{
    reveal(members::attr_reader);
    lemma_keyword_nested(s, p, "attr_reader".spec_bytes());
    lemma_keyword_moved(s, p, t, k, "attr_reader".spec_bytes());
    let a = keyword(s, p, "attr_reader".spec_bytes());
    lemma_moved_node(Rule::AttrReader, p, a, k);
}

/// `attr_writer` does the same where the same text stands at another offset.
pub proof fn lemma_attr_writer_moved(s: Seq<u8>, p: int, t: Seq<u8>, k: int)
    requires
        same_from(s, p, t, k),
    ensures
        members::attr_writer(t, p + k) == moved(members::attr_writer(s, p), k),
{
    reveal(members::attr_writer);
    lemma_keyword_nested(s, p, "attr_writer".spec_bytes());
    lemma_keyword_moved(s, p, t, k, "attr_writer".spec_bytes());
    let a = keyword(s, p, "attr_writer".spec_bytes());
    lemma_moved_node(Rule::AttrWriter, p, a, k);
}

/// `attr_accessor` does the same where the same text stands at another offset.
pub proof fn lemma_attr_accessor_moved(s: Seq<u8>, p: int, t: Seq<u8>, k: int)
    requires
        same_from(s, p, t, k),
    ensures
        members::attr_accessor(t, p + k) == moved(members::attr_accessor(s, p), k),
{
    reveal(members::attr_accessor);
    lemma_keyword_nested(s, p, "attr_accessor".spec_bytes());
    lemma_keyword_moved(s, p, t, k, "attr_accessor".spec_bytes());
    let a = keyword(s, p, "attr_accessor".spec_bytes());
    lemma_moved_node(Rule::AttrAccessor, p, a, k);
}

/// `attribute_kind` does the same where the same text stands at another offset.
pub proof fn lemma_attribute_kind_moved(s: Seq<u8>, p: int, t: Seq<u8>, k: int)
    requires
        same_from(s, p, t, k),
    ensures
        members::attribute_kind(t, p + k) == moved(members::attribute_kind(s, p), k),
{
    reveal(members::attribute_kind);
    crate::nesting::members::lemma_attr_reader_nested(s, p);
    crate::shifting::members::lemma_attr_reader_moved(s, p, t, k);
    crate::nesting::members::lemma_attr_writer_nested(s, p);
    crate::shifting::members::lemma_attr_writer_moved(s, p, t, k);
    crate::nesting::members::lemma_attr_accessor_nested(s, p);
    crate::shifting::members::lemma_attr_accessor_moved(s, p, t, k);
    lemma_moved_either(members::attr_writer(s, p), members::attr_accessor(s, p), k);
    lemma_moved_either(
        members::attr_reader(s, p),
        either(members::attr_writer(s, p), members::attr_accessor(s, p)),
        k,
    );
}

/// `attribute_name` does the same where the same text stands at another offset.
pub proof fn lemma_attribute_name_moved(s: Seq<u8>, p: int, t: Seq<u8>, k: int)
    requires
        same_from(s, p, t, k),
    ensures
        members::attribute_name(t, p + k) == moved(members::attribute_name(s, p), k),
{
    reveal(members::attribute_name);
    crate::nesting::names::lemma_lower_ident_nested(s, p);
    crate::shifting::names::lemma_lower_ident_moved(s, p, t, k);
    let a = names::lower_ident(s, p);
    lemma_moved_node(Rule::AttributeName, p, a, k);
}

/// `ivar_name` does the same where the same text stands at another offset.
pub proof fn lemma_ivar_name_moved(s: Seq<u8>, p: int, t: Seq<u8>, k: int)
    requires
        same_from(s, p, t, k),
    ensures
        members::ivar_name(t, p + k) == moved(members::ivar_name(s, p), k),
{
    reveal(members::ivar_name);
    lemma_byte_nested(s, p, AT);
    lemma_byte_moved(s, p, t, k, AT);
    let a = byte(s, p, AT);
    if a.ok {
        lemma_same_from_later(s, p, t, k, a.end);
        lemma_one_nested(s, a.end, Class::IdentStart);
        lemma_one_moved(s, a.end, t, k, Class::IdentStart);
    }
    crate::nesting::forest::lemma_join_nested(s, p, a, one(s, a.end, Class::IdentStart));
    lemma_moved_join(a, one(s, a.end, Class::IdentStart), k);
    let b = join(a, one(s, a.end, Class::IdentStart));
    if b.ok {
        lemma_same_from_later(s, p, t, k, b.end);
        lemma_run_nested(s, b.end, Class::Word);
        lemma_run_moved(s, b.end, t, k, Class::Word);
    }
    crate::nesting::forest::lemma_join_nested(s, p, b, run(s, b.end, Class::Word));
    lemma_moved_join(b, run(s, b.end, Class::Word), k);
    let c = join(b, run(s, b.end, Class::Word));
    lemma_moved_node(Rule::IvarName, p, c, k);
}

/// `spaced_ivar_name` does the same where the same text stands at another offset.
pub proof fn lemma_spaced_ivar_name_moved(s: Seq<u8>, p: int, t: Seq<u8>, k: int)
    requires
        same_from(s, p, t, k),
    ensures
        members::spaced_ivar_name(t, p + k) == moved(members::spaced_ivar_name(s, p), k),
{
    reveal(members::spaced_ivar_name);
    crate::nesting::members::lemma_ivar_name_nested(s, p);
    crate::shifting::members::lemma_ivar_name_moved(s, p, t, k);
    let a = members::ivar_name(s, p);
    if a.ok {
        lemma_same_from_later(s, p, t, k, a.end);
        lemma_trivia_nested(s, a.end);
        lemma_trivia_moved(s, a.end, t, k);
    }
    crate::nesting::forest::lemma_join_nested(s, p, a, trivia(s, a.end));
    lemma_moved_join(a, trivia(s, a.end), k);
    let b = join(a, trivia(s, a.end));
    lemma_moved_quiet(p, b, k);
}

/// `ivar_clause` does the same where the same text stands at another offset.
pub proof fn lemma_ivar_clause_moved(s: Seq<u8>, p: int, t: Seq<u8>, k: int)
    requires
        same_from(s, p, t, k),
    ensures
        members::ivar_clause(t, p + k) == moved(members::ivar_clause(s, p), k),
{
    reveal(members::ivar_clause);
    lemma_byte_nested(s, p, LEFT_PAREN);
    lemma_byte_moved(s, p, t, k, LEFT_PAREN);
    let a = byte(s, p, LEFT_PAREN);
    if a.ok {
        lemma_same_from_later(s, p, t, k, a.end);
        lemma_trivia_nested(s, a.end);
        lemma_trivia_moved(s, a.end, t, k);
    }
    crate::nesting::forest::lemma_join_nested(s, p, a, trivia(s, a.end));
    lemma_moved_join(a, trivia(s, a.end), k);
    let b = join(a, trivia(s, a.end));
    if b.ok {
        lemma_same_from_later(s, p, t, k, b.end);
        crate::nesting::members::lemma_spaced_ivar_name_nested(s, b.end);
        crate::shifting::members::lemma_spaced_ivar_name_moved(s, b.end, t, k);
        lemma_moved_opt(b.end, members::spaced_ivar_name(s, b.end), k);
    }
    crate::nesting::forest::lemma_join_nested(
        s,
        p,
        b,
        opt(b.end, members::spaced_ivar_name(s, b.end)),
    );
    lemma_moved_join(b, opt(b.end, members::spaced_ivar_name(s, b.end)), k);
    let c = join(b, opt(b.end, members::spaced_ivar_name(s, b.end)));
    if c.ok {
        lemma_same_from_later(s, p, t, k, c.end);
        lemma_byte_nested(s, c.end, RIGHT_PAREN);
        lemma_byte_moved(s, c.end, t, k, RIGHT_PAREN);
    }
    crate::nesting::forest::lemma_join_nested(s, p, c, byte(s, c.end, RIGHT_PAREN));
    lemma_moved_join(c, byte(s, c.end, RIGHT_PAREN), k);
    let d = join(c, byte(s, c.end, RIGHT_PAREN));
    lemma_moved_node(Rule::IvarClause, p, d, k);
}

/// `spaced_ivar_clause` does the same where the same text stands at another offset.
pub proof fn lemma_spaced_ivar_clause_moved(s: Seq<u8>, p: int, t: Seq<u8>, k: int)
    requires
        same_from(s, p, t, k),
    ensures
        members::spaced_ivar_clause(t, p + k) == moved(members::spaced_ivar_clause(s, p), k),
{
    reveal(members::spaced_ivar_clause);
    lemma_trivia_nested(s, p);
    lemma_trivia_moved(s, p, t, k);
    let a = trivia(s, p);
    if a.ok {
        lemma_same_from_later(s, p, t, k, a.end);
        crate::nesting::members::lemma_ivar_clause_nested(s, a.end);
        crate::shifting::members::lemma_ivar_clause_moved(s, a.end, t, k);
    }
    crate::nesting::forest::lemma_join_nested(s, p, a, members::ivar_clause(s, a.end));
    lemma_moved_join(a, members::ivar_clause(s, a.end), k);
    let b = join(a, members::ivar_clause(s, a.end));
    lemma_moved_quiet(p, b, k);
}

/// `member_attribute` does the same where the same text stands at another offset.
pub proof fn lemma_member_attribute_moved(s: Seq<u8>, p: int, t: Seq<u8>, k: int)
    requires
        same_from(s, p, t, k),
    ensures
        members::member_attribute(t, p + k) == moved(members::member_attribute(s, p), k),
{
    reveal(members::member_attribute);
    crate::nesting::members::lemma_attribute_kind_nested(s, p);
    crate::shifting::members::lemma_attribute_kind_moved(s, p, t, k);
    let a = members::attribute_kind(s, p);
    if a.ok {
        lemma_same_from_later(s, p, t, k, a.end);
        lemma_trivia_nested(s, a.end);
        lemma_trivia_moved(s, a.end, t, k);
    }
    crate::nesting::forest::lemma_join_nested(s, p, a, trivia(s, a.end));
    lemma_moved_join(a, trivia(s, a.end), k);
    let b = join(a, trivia(s, a.end));
    if b.ok {
        lemma_same_from_later(s, p, t, k, b.end);
        crate::nesting::members::lemma_attribute_name_nested(s, b.end);
        crate::shifting::members::lemma_attribute_name_moved(s, b.end, t, k);
    }
    crate::nesting::forest::lemma_join_nested(s, p, b, members::attribute_name(s, b.end));
    lemma_moved_join(b, members::attribute_name(s, b.end), k);
    let c = join(b, members::attribute_name(s, b.end));
    if c.ok {
        lemma_same_from_later(s, p, t, k, c.end);
        crate::nesting::members::lemma_spaced_ivar_clause_nested(s, c.end);
        crate::shifting::members::lemma_spaced_ivar_clause_moved(s, c.end, t, k);
        lemma_moved_opt(c.end, members::spaced_ivar_clause(s, c.end), k);
    }
    crate::nesting::forest::lemma_join_nested(
        s,
        p,
        c,
        opt(c.end, members::spaced_ivar_clause(s, c.end)),
    );
    lemma_moved_join(c, opt(c.end, members::spaced_ivar_clause(s, c.end)), k);
    let d = join(c, opt(c.end, members::spaced_ivar_clause(s, c.end)));
    if d.ok {
        lemma_same_from_later(s, p, t, k, d.end);
        lemma_trivia_nested(s, d.end);
        lemma_trivia_moved(s, d.end, t, k);
    }
    crate::nesting::forest::lemma_join_nested(s, p, d, trivia(s, d.end));
    lemma_moved_join(d, trivia(s, d.end), k);
    let e = join(d, trivia(s, d.end));
    if e.ok {
        lemma_same_from_later(s, p, t, k, e.end);
        lemma_byte_nested(s, e.end, COLON);
        lemma_byte_moved(s, e.end, t, k, COLON);
    }
    crate::nesting::forest::lemma_join_nested(s, p, e, byte(s, e.end, COLON));
    lemma_moved_join(e, byte(s, e.end, COLON), k);
    let f = join(e, byte(s, e.end, COLON));
    if f.ok {
        lemma_same_from_later(s, p, t, k, f.end);
        lemma_trivia_nested(s, f.end);
        lemma_trivia_moved(s, f.end, t, k);
    }
    crate::nesting::forest::lemma_join_nested(s, p, f, trivia(s, f.end));
    lemma_moved_join(f, trivia(s, f.end), k);
    let g = join(f, trivia(s, f.end));
    if g.ok {
        lemma_same_from_later(s, p, t, k, g.end);
        crate::nesting::types::lemma_type_expr_nested(s, g.end);
        crate::shifting::types::lemma_type_expr_moved(s, g.end, t, k);
    }
    crate::nesting::forest::lemma_join_nested(s, p, g, types::type_expr(s, g.end));
    lemma_moved_join(g, types::type_expr(s, g.end), k);
    let h = join(g, types::type_expr(s, g.end));
    lemma_moved_node(Rule::MemberAttribute, p, h, k);
}

/// `mixin_target` does the same where the same text stands at another offset.
pub proof fn lemma_mixin_target_moved(s: Seq<u8>, p: int, t: Seq<u8>, k: int)
    requires
        same_from(s, p, t, k),
    ensures
        members::mixin_target(t, p + k) == moved(members::mixin_target(s, p), k),
{
    reveal(members::mixin_target);
    crate::nesting::types::lemma_type_interface_name_nested(s, p);
    crate::shifting::types::lemma_type_interface_name_moved(s, p, t, k);
    crate::nesting::types::lemma_type_class_instance_name_nested(s, p);
    crate::shifting::types::lemma_type_class_instance_name_moved(s, p, t, k);
    lemma_moved_either(types::type_interface_name(s, p), types::type_class_instance_name(s, p), k);
}

/// `member_include` does the same where the same text stands at another offset.
pub proof fn lemma_member_include_moved(s: Seq<u8>, p: int, t: Seq<u8>, k: int)
    requires
        same_from(s, p, t, k),
    ensures
        members::member_include(t, p + k) == moved(members::member_include(s, p), k),
{
    reveal(members::member_include);
    lemma_keyword_nested(s, p, "include".spec_bytes());
    lemma_keyword_moved(s, p, t, k, "include".spec_bytes());
    let a = keyword(s, p, "include".spec_bytes());
    if a.ok {
        lemma_same_from_later(s, p, t, k, a.end);
        lemma_trivia_nested(s, a.end);
        lemma_trivia_moved(s, a.end, t, k);
    }
    crate::nesting::forest::lemma_join_nested(s, p, a, trivia(s, a.end));
    lemma_moved_join(a, trivia(s, a.end), k);
    let b = join(a, trivia(s, a.end));
    if b.ok {
        lemma_same_from_later(s, p, t, k, b.end);
        crate::nesting::members::lemma_mixin_target_nested(s, b.end);
        crate::shifting::members::lemma_mixin_target_moved(s, b.end, t, k);
    }
    crate::nesting::forest::lemma_join_nested(s, p, b, members::mixin_target(s, b.end));
    lemma_moved_join(b, members::mixin_target(s, b.end), k);
    let c = join(b, members::mixin_target(s, b.end));
    lemma_moved_node(Rule::MemberInclude, p, c, k);
}

/// `member_extend` does the same where the same text stands at another offset.
pub proof fn lemma_member_extend_moved(s: Seq<u8>, p: int, t: Seq<u8>, k: int)
    requires
        same_from(s, p, t, k),
    ensures
        members::member_extend(t, p + k) == moved(members::member_extend(s, p), k),
{
    reveal(members::member_extend);
    lemma_keyword_nested(s, p, "extend".spec_bytes());
    lemma_keyword_moved(s, p, t, k, "extend".spec_bytes());
    let a = keyword(s, p, "extend".spec_bytes());
    if a.ok {
        lemma_same_from_later(s, p, t, k, a.end);
        lemma_trivia_nested(s, a.end);
        lemma_trivia_moved(s, a.end, t, k);
    }
    crate::nesting::forest::lemma_join_nested(s, p, a, trivia(s, a.end));
    lemma_moved_join(a, trivia(s, a.end), k);
    let b = join(a, trivia(s, a.end));
    if b.ok {
        lemma_same_from_later(s, p, t, k, b.end);
        crate::nesting::members::lemma_mixin_target_nested(s, b.end);
        crate::shifting::members::lemma_mixin_target_moved(s, b.end, t, k);
    }
    crate::nesting::forest::lemma_join_nested(s, p, b, members::mixin_target(s, b.end));
    lemma_moved_join(b, members::mixin_target(s, b.end), k);
    let c = join(b, members::mixin_target(s, b.end));
    lemma_moved_node(Rule::MemberExtend, p, c, k);
}

/// `member` does the same where the same text stands at another offset.
pub proof fn lemma_member_moved(s: Seq<u8>, p: int, t: Seq<u8>, k: int)
    requires
        same_from(s, p, t, k),
    ensures
        members::member(t, p + k) == moved(members::member(s, p), k),
{
    reveal(members::member);
    crate::nesting::members::lemma_member_method_nested(s, p);
    crate::shifting::members::lemma_member_method_moved(s, p, t, k);
    crate::nesting::members::lemma_member_alias_nested(s, p);
    crate::shifting::members::lemma_member_alias_moved(s, p, t, k);
    crate::nesting::members::lemma_member_attribute_nested(s, p);
    crate::shifting::members::lemma_member_attribute_moved(s, p, t, k);
    crate::nesting::members::lemma_member_include_nested(s, p);
    crate::shifting::members::lemma_member_include_moved(s, p, t, k);
    crate::nesting::members::lemma_member_extend_nested(s, p);
    crate::shifting::members::lemma_member_extend_moved(s, p, t, k);
    lemma_moved_either(members::member_include(s, p), members::member_extend(s, p), k);
    lemma_moved_either(
        members::member_attribute(s, p),
        either(members::member_include(s, p), members::member_extend(s, p)),
        k,
    );
    lemma_moved_either(
        members::member_alias(s, p),
        either(
            members::member_attribute(s, p),
            either(members::member_include(s, p), members::member_extend(s, p)),
        ),
        k,
    );
    lemma_moved_either(
        members::member_method(s, p),
        either(
            members::member_alias(s, p),
            either(
                members::member_attribute(s, p),
                either(members::member_include(s, p), members::member_extend(s, p)),
            ),
        ),
        k,
    );
}

} // verus!
