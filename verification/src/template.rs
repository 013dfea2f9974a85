//! The template language and its expansion, as specification functions.
//!
//! A template is a byte string.  `{}` marks a substitution directive,
//! `{{` and `}}` are escapes for a literal brace, and every other byte
//! stands for itself.  A lone brace is malformed; well-formedness is a
//! construction-time obligation on the caller, not a runtime error.

use vstd::prelude::*;

verus! {

/// The opening-brace byte of a directive or escape.
pub const LBRACE: u8 = 123;

/// The closing-brace byte of a directive or escape.
pub const RBRACE: u8 = 125;

/// The line-terminator byte appended by the line-oriented entry point.
pub const NEWLINE: u8 = 10;

/// A template is well formed when every `{` opens either a directive
/// `{}` or an escape `{{`, and every `}` outside those forms is doubled.
pub open spec fn wf_template(t: Seq<u8>) -> bool
    decreases t.len(),
{
    if t.len() == 0 {
        true
    } else if t[0] == LBRACE {
        t.len() >= 2 && (t[1] == RBRACE || t[1] == LBRACE) && wf_template(t.skip(2))
    } else if t[0] == RBRACE {
        t.len() >= 2 && t[1] == RBRACE && wf_template(t.skip(2))
    } else {
        wf_template(t.skip(1))
    }
}

/// The number of substitution directives `{}` in a template; a well-formed
/// call must supply exactly this many arguments.
pub open spec fn directive_count(t: Seq<u8>) -> nat
    decreases t.len(),
{
    if t.len() == 0 {
        0
    } else if t[0] == LBRACE && t.len() >= 2 && t[1] == RBRACE {
        1 + directive_count(t.skip(2))
    } else if (t[0] == LBRACE || t[0] == RBRACE) && t.len() >= 2 && t[1] == t[0] {
        directive_count(t.skip(2))
    } else {
        directive_count(t.skip(1))
    }
}

/// The reference expansion: the exact byte sequence a template yields
/// against its arguments.  Directives consume arguments left to right,
/// escapes decode to a single brace, literals pass through unchanged.
pub open spec fn expand(t: Seq<u8>, args: Seq<Seq<u8>>) -> Seq<u8>
    decreases t.len(),
{
    if t.len() == 0 {
        Seq::empty()
    } else if t[0] == LBRACE && t.len() >= 2 && t[1] == RBRACE {
        if args.len() > 0 {
            args[0] + expand(t.skip(2), args.skip(1))
        } else {
            expand(t.skip(2), args)
        }
    } else if (t[0] == LBRACE || t[0] == RBRACE) && t.len() >= 2 && t[1] == t[0] {
        seq![t[0]] + expand(t.skip(2), args)
    } else {
        seq![t[0]] + expand(t.skip(1), args)
    }
}

/// What the line-oriented entry point emits: the expansion of the
/// template followed by exactly one line terminator.
pub open spec fn expand_line(t: Seq<u8>, args: Seq<Seq<u8>>) -> Seq<u8> {
    expand(t, args).push(NEWLINE)
}

/// Decide at run time whether a template is well formed, and count its
/// directives: `Some(n)` exactly when the template is well formed with
/// `n` directives, `None` exactly when it is malformed.  An unverified
/// caller checks a template with this before handing it to the adapter.
pub fn template_directives(template: &[u8]) -> (r: Option<usize>)
    ensures
        match r {
            Some(n) => wf_template(template@) && directive_count(template@) == n,
            None => !wf_template(template@),
        },
{
    let mut i: usize = 0;
    let mut count: usize = 0;
    proof {
        assert(template@.skip(0) =~= template@);
    }
    while i < template.len()
        invariant
            i <= template@.len(),
            2 * count <= i,
            wf_template(template@) <==> wf_template(template@.skip(i as int)),
            directive_count(template@) == count + directive_count(template@.skip(i as int)),
        decreases template@.len() - i,
    {
        let ghost t = template@.skip(i as int);
        let c = template[i];
        proof {
            assert(t[0] == template@[i as int]);
        }
        if c == LBRACE || c == RBRACE {
            if i + 1 == template.len() {
                // a lone brace at the end of the template
                return None;
            }
            let d = template[i + 1];
            proof {
                assert(t[1] == template@[i as int + 1]);
                assert(template@.skip(i as int + 2) =~= t.skip(2));
            }
            if c == LBRACE && d == RBRACE {
                count = count + 1;
            } else if d != c {
                // a brace followed by neither its double nor, for `{`,
                // a closing brace
                return None;
            }
            i = i + 2;
        } else {
            proof {
                assert(template@.skip(i as int + 1) =~= t.skip(1));
            }
            i = i + 1;
        }
    }
    proof {
        assert(template@.skip(i as int) =~= Seq::<u8>::empty());
    }
    Some(count)
}

/// A template made only of bytes that are not braces expands to exactly
/// its own bytes: no directive fires and no escape is decoded.
pub proof fn lemma_literal_template_expands_to_itself(t: Seq<u8>)
    requires
        forall|i: int| 0 <= i < t.len() ==> t[i] != LBRACE && t[i] != RBRACE,
    ensures
        wf_template(t),
        directive_count(t) == 0,
        expand(t, Seq::empty()) == t,
    decreases t.len(),
{
    if t.len() == 0 {
        assert(expand(t, Seq::empty()) =~= t);
    } else {
        lemma_literal_template_expands_to_itself(t.skip(1));
        assert(expand(t, Seq::empty()) =~= t);
    }
}

/// The line-oriented expansion is exactly one byte longer than the plain
/// expansion, that byte is the line terminator, it comes last, and the
/// bytes before it are the plain expansion unchanged.
pub proof fn lemma_expand_line(t: Seq<u8>, args: Seq<Seq<u8>>)
    ensures
        expand_line(t, args).len() == expand(t, args).len() + 1,
        expand_line(t, args).last() == NEWLINE,
        expand_line(t, args).take(expand(t, args).len() as int) == expand(t, args),
{
    assert(expand_line(t, args).take(expand(t, args).len() as int) =~= expand(t, args));
}

} // verus!
