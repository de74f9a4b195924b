use vstd::prelude::*;
use vstd::string::StringSliceAdditionalSpecFns;
use crate::grammar::lexical::{byte, keyword, trivia, COLON, LEFT_BRACKET, LESS, RIGHT_BRACKET};
use crate::grammar::step::{join, opt};
use crate::grammar::{declarations, members, names, types};
use crate::nesting::forest::{
    lemma_byte_nested, lemma_join_nested, lemma_keyword_nested, lemma_opt_nested,
    lemma_trivia_nested,
};
use crate::progress::words::{
    lemma_keyword_progress, lemma_word_class, lemma_word_module, lemma_word_unchecked,
    lemma_word_out, lemma_word_in,
};

verus! {

/// `unchecked` matches nothing empty.
pub proof fn lemma_unchecked_progress(s: Seq<u8>, p: int)
    requires
        0 <= p <= s.len(),
    ensures
        declarations::unchecked(s, p).ok ==> p < declarations::unchecked(s, p).end <= s.len(),
{
    reveal(declarations::unchecked);
    crate::nesting::declarations::lemma_unchecked_nested(s, p);
    lemma_keyword_nested(s, p, "unchecked".spec_bytes());
    lemma_word_unchecked();
    lemma_keyword_progress(s, p, "unchecked".spec_bytes());
    let a = keyword(s, p, "unchecked".spec_bytes());
}

/// `variance_out` matches nothing empty.
pub proof fn lemma_variance_out_progress(s: Seq<u8>, p: int)
    requires
        0 <= p <= s.len(),
    ensures
        declarations::variance_out(s, p).ok ==> p < declarations::variance_out(s, p).end <= s.len(),
{
    reveal(declarations::variance_out);
    crate::nesting::declarations::lemma_variance_out_nested(s, p);
    lemma_keyword_nested(s, p, "out".spec_bytes());
    lemma_word_out();
    lemma_keyword_progress(s, p, "out".spec_bytes());
    let a = keyword(s, p, "out".spec_bytes());
}

/// `variance_in` matches nothing empty.
pub proof fn lemma_variance_in_progress(s: Seq<u8>, p: int)
    requires
        0 <= p <= s.len(),
    ensures
        declarations::variance_in(s, p).ok ==> p < declarations::variance_in(s, p).end <= s.len(),
{
    reveal(declarations::variance_in);
    crate::nesting::declarations::lemma_variance_in_nested(s, p);
    lemma_keyword_nested(s, p, "in".spec_bytes());
    lemma_word_in();
    lemma_keyword_progress(s, p, "in".spec_bytes());
    let a = keyword(s, p, "in".spec_bytes());
}

/// `type_param_name` matches nothing empty.
pub proof fn lemma_type_param_name_progress(s: Seq<u8>, p: int)
    requires
        0 <= p <= s.len(),
    ensures
        declarations::type_param_name(s, p).ok ==> p < declarations::type_param_name(s, p).end <= s.len(),
{
    reveal(declarations::type_param_name);
    crate::nesting::declarations::lemma_type_param_name_nested(s, p);
    crate::nesting::names::lemma_upper_ident_nested(s, p);
    crate::progress::names::lemma_upper_ident_progress(s, p);
    let a = names::upper_ident(s, p);
}

/// `type_param` matches nothing empty.
pub proof fn lemma_type_param_progress(s: Seq<u8>, p: int)
    requires
        0 <= p <= s.len(),
    ensures
        declarations::type_param(s, p).ok ==> p < declarations::type_param(s, p).end <= s.len(),
{
    reveal(declarations::type_param);
    crate::nesting::declarations::lemma_type_param_nested(s, p);
    crate::nesting::declarations::lemma_modifiers_nested(s, p);
    lemma_opt_nested(s, p, declarations::modifiers(s, p));
    let a = opt(p, declarations::modifiers(s, p));
    if a.ok {
        crate::nesting::declarations::lemma_type_param_name_nested(s, a.end);
        crate::progress::declarations::lemma_type_param_name_progress(s, a.end);
    }
    crate::nesting::forest::lemma_join_nested(s, p, a, declarations::type_param_name(s, a.end));
    let b = join(a, declarations::type_param_name(s, a.end));
    if b.ok {
        crate::nesting::declarations::lemma_bound_nested(s, b.end);
        lemma_opt_nested(s, b.end, declarations::bound(s, b.end));
    }
    crate::nesting::forest::lemma_join_nested(s, p, b, opt(b.end, declarations::bound(s, b.end)));
    let c = join(b, opt(b.end, declarations::bound(s, b.end)));
}

/// `type_params` matches nothing empty.
pub proof fn lemma_type_params_progress(s: Seq<u8>, p: int)
    requires
        0 <= p <= s.len(),
    ensures
        declarations::type_params(s, p).ok ==> p < declarations::type_params(s, p).end <= s.len(),
{
    reveal(declarations::type_params);
    crate::nesting::declarations::lemma_type_params_nested(s, p);
    lemma_byte_nested(s, p, LEFT_BRACKET);
    let a = byte(s, p, LEFT_BRACKET);
    if a.ok {
        lemma_trivia_nested(s, a.end);
    }
    crate::nesting::forest::lemma_join_nested(s, p, a, trivia(s, a.end));
    let b = join(a, trivia(s, a.end));
    if b.ok {
        crate::nesting::declarations::lemma_type_param_nested(s, b.end);
    }
    crate::nesting::forest::lemma_join_nested(s, p, b, declarations::type_param(s, b.end));
    let c = join(b, declarations::type_param(s, b.end));
    if c.ok {
        crate::nesting::declarations::lemma_more_type_params_nested(s, c.end);
    }
    crate::nesting::forest::lemma_join_nested(s, p, c, declarations::more_type_params(s, c.end));
    let d = join(c, declarations::more_type_params(s, c.end));
    if d.ok {
        lemma_trivia_nested(s, d.end);
    }
    crate::nesting::forest::lemma_join_nested(s, p, d, trivia(s, d.end));
    let e = join(d, trivia(s, d.end));
    if e.ok {
        lemma_byte_nested(s, e.end, RIGHT_BRACKET);
    }
    crate::nesting::forest::lemma_join_nested(s, p, e, byte(s, e.end, RIGHT_BRACKET));
    let f = join(e, byte(s, e.end, RIGHT_BRACKET));
}

/// `super_class` matches nothing empty.
pub proof fn lemma_super_class_progress(s: Seq<u8>, p: int)
    requires
        0 <= p <= s.len(),
    ensures
        declarations::super_class(s, p).ok ==> p < declarations::super_class(s, p).end <= s.len(),
{
    reveal(declarations::super_class);
    crate::nesting::declarations::lemma_super_class_nested(s, p);
    lemma_byte_nested(s, p, LESS);
    let a = byte(s, p, LESS);
    if a.ok {
        lemma_trivia_nested(s, a.end);
    }
    crate::nesting::forest::lemma_join_nested(s, p, a, trivia(s, a.end));
    let b = join(a, trivia(s, a.end));
    if b.ok {
        crate::nesting::types::lemma_type_class_instance_name_nested(s, b.end);
    }
    crate::nesting::forest::lemma_join_nested(s, p, b, types::type_class_instance_name(s, b.end));
    let c = join(b, types::type_class_instance_name(s, b.end));
}

/// `self_types` matches nothing empty.
pub proof fn lemma_self_types_progress(s: Seq<u8>, p: int)
    requires
        0 <= p <= s.len(),
    ensures
        declarations::self_types(s, p).ok ==> p < declarations::self_types(s, p).end <= s.len(),
{
    reveal(declarations::self_types);
    crate::nesting::declarations::lemma_self_types_nested(s, p);
    lemma_byte_nested(s, p, COLON);
    let a = byte(s, p, COLON);
    if a.ok {
        lemma_trivia_nested(s, a.end);
    }
    crate::nesting::forest::lemma_join_nested(s, p, a, trivia(s, a.end));
    let b = join(a, trivia(s, a.end));
    if b.ok {
        crate::nesting::types::lemma_type_list_nested(s, b.end);
    }
    crate::nesting::forest::lemma_join_nested(s, p, b, types::type_list(s, b.end));
    let c = join(b, types::type_list(s, b.end));
}

/// `class_decl` matches nothing empty.
pub proof fn lemma_class_decl_progress(s: Seq<u8>, p: int)
    requires
        0 <= p <= s.len(),
    ensures
        declarations::class_decl(s, p).ok ==> p < declarations::class_decl(s, p).end <= s.len(),
{
    reveal(declarations::class_decl);
    crate::nesting::declarations::lemma_class_decl_nested(s, p);
    lemma_keyword_nested(s, p, "class".spec_bytes());
    lemma_word_class();
    lemma_keyword_progress(s, p, "class".spec_bytes());
    let a = keyword(s, p, "class".spec_bytes());
    if a.ok {
        lemma_trivia_nested(s, a.end);
    }
    crate::nesting::forest::lemma_join_nested(s, p, a, trivia(s, a.end));
    let b = join(a, trivia(s, a.end));
    if b.ok {
        crate::nesting::names::lemma_class_name_nested(s, b.end);
    }
    crate::nesting::forest::lemma_join_nested(s, p, b, names::class_name(s, b.end));
    let c = join(b, names::class_name(s, b.end));
    if c.ok {
        crate::nesting::declarations::lemma_spaced_type_params_nested(s, c.end);
        lemma_opt_nested(s, c.end, declarations::spaced_type_params(s, c.end));
    }
    crate::nesting::forest::lemma_join_nested(
        s,
        p,
        c,
        opt(c.end, declarations::spaced_type_params(s, c.end)),
    );
    let d = join(c, opt(c.end, declarations::spaced_type_params(s, c.end)));
    if d.ok {
        crate::nesting::declarations::lemma_spaced_super_class_nested(s, d.end);
        lemma_opt_nested(s, d.end, declarations::spaced_super_class(s, d.end));
    }
    crate::nesting::forest::lemma_join_nested(
        s,
        p,
        d,
        opt(d.end, declarations::spaced_super_class(s, d.end)),
    );
    let e = join(d, opt(d.end, declarations::spaced_super_class(s, d.end)));
    if e.ok {
        crate::nesting::declarations::lemma_members_nested(s, e.end);
    }
    crate::nesting::forest::lemma_join_nested(s, p, e, declarations::members(s, e.end));
    let f = join(e, declarations::members(s, e.end));
    if f.ok {
        lemma_trivia_nested(s, f.end);
    }
    crate::nesting::forest::lemma_join_nested(s, p, f, trivia(s, f.end));
    let g = join(f, trivia(s, f.end));
    if g.ok {
        lemma_keyword_nested(s, g.end, "end".spec_bytes());
    }
    crate::nesting::forest::lemma_join_nested(s, p, g, keyword(s, g.end, "end".spec_bytes()));
    let h = join(g, keyword(s, g.end, "end".spec_bytes()));
}

/// `module_decl` matches nothing empty.
pub proof fn lemma_module_decl_progress(s: Seq<u8>, p: int)
    requires
        0 <= p <= s.len(),
    ensures
        declarations::module_decl(s, p).ok ==> p < declarations::module_decl(s, p).end <= s.len(),
{
    reveal(declarations::module_decl);
    crate::nesting::declarations::lemma_module_decl_nested(s, p);
    lemma_keyword_nested(s, p, "module".spec_bytes());
    lemma_word_module();
    lemma_keyword_progress(s, p, "module".spec_bytes());
    let a = keyword(s, p, "module".spec_bytes());
    if a.ok {
        lemma_trivia_nested(s, a.end);
    }
    crate::nesting::forest::lemma_join_nested(s, p, a, trivia(s, a.end));
    let b = join(a, trivia(s, a.end));
    if b.ok {
        crate::nesting::names::lemma_class_name_nested(s, b.end);
    }
    crate::nesting::forest::lemma_join_nested(s, p, b, names::class_name(s, b.end));
    let c = join(b, names::class_name(s, b.end));
    if c.ok {
        crate::nesting::declarations::lemma_spaced_type_params_nested(s, c.end);
        lemma_opt_nested(s, c.end, declarations::spaced_type_params(s, c.end));
    }
    crate::nesting::forest::lemma_join_nested(
        s,
        p,
        c,
        opt(c.end, declarations::spaced_type_params(s, c.end)),
    );
    let d = join(c, opt(c.end, declarations::spaced_type_params(s, c.end)));
    if d.ok {
        crate::nesting::declarations::lemma_spaced_self_types_nested(s, d.end);
        lemma_opt_nested(s, d.end, declarations::spaced_self_types(s, d.end));
    }
    crate::nesting::forest::lemma_join_nested(
        s,
        p,
        d,
        opt(d.end, declarations::spaced_self_types(s, d.end)),
    );
    let e = join(d, opt(d.end, declarations::spaced_self_types(s, d.end)));
    if e.ok {
        crate::nesting::declarations::lemma_members_nested(s, e.end);
    }
    crate::nesting::forest::lemma_join_nested(s, p, e, declarations::members(s, e.end));
    let f = join(e, declarations::members(s, e.end));
    if f.ok {
        lemma_trivia_nested(s, f.end);
    }
    crate::nesting::forest::lemma_join_nested(s, p, f, trivia(s, f.end));
    let g = join(f, trivia(s, f.end));
    if g.ok {
        lemma_keyword_nested(s, g.end, "end".spec_bytes());
    }
    crate::nesting::forest::lemma_join_nested(s, p, g, keyword(s, g.end, "end".spec_bytes()));
    let h = join(g, keyword(s, g.end, "end".spec_bytes()));
}

/// `const_decl` matches nothing empty.
pub proof fn lemma_const_decl_progress(s: Seq<u8>, p: int)
    requires
        0 <= p <= s.len(),
    ensures
        declarations::const_decl(s, p).ok ==> p < declarations::const_decl(s, p).end <= s.len(),
{
    reveal(declarations::const_decl);
    crate::nesting::declarations::lemma_const_decl_nested(s, p);
    crate::nesting::names::lemma_const_name_nested(s, p);
    crate::progress::names::lemma_const_name_progress(s, p);
    let a = names::const_name(s, p);
    if a.ok {
        lemma_trivia_nested(s, a.end);
    }
    crate::nesting::forest::lemma_join_nested(s, p, a, trivia(s, a.end));
    let b = join(a, trivia(s, a.end));
    if b.ok {
        lemma_byte_nested(s, b.end, COLON);
    }
    crate::nesting::forest::lemma_join_nested(s, p, b, byte(s, b.end, COLON));
    let c = join(b, byte(s, b.end, COLON));
    if c.ok {
        lemma_trivia_nested(s, c.end);
    }
    crate::nesting::forest::lemma_join_nested(s, p, c, trivia(s, c.end));
    let d = join(c, trivia(s, c.end));
    if d.ok {
        crate::nesting::types::lemma_type_expr_nested(s, d.end);
    }
    crate::nesting::forest::lemma_join_nested(s, p, d, types::type_expr(s, d.end));
    let e = join(d, types::type_expr(s, d.end));
}

} // verus!
