//! The formatted-output adapter: expand a template against its arguments
//! and push every resulting byte to a caller-chosen sink, in order,
//! exactly once each, with no added separators and no buffering beyond
//! what the sink itself models.

use vstd::prelude::*;
use crate::sink::{BoundedSink, ByteSink, DebugWriter, SinkError};
use crate::template::{directive_count, expand, expand_line, wf_template, LBRACE, NEWLINE, RBRACE};

verus! {

/// The byte strings an argument list denotes, in order.
pub open spec fn arg_views(args: Seq<Vec<u8>>) -> Seq<Seq<u8>> {
    Seq::new(args.len(), |i: int| args[i]@)
}

/// Write every byte of `buf` to the sink, first to last.  On refusal the
/// sink holds exactly the bytes written before the refused one; nothing
/// is retried.
fn write_all<S: ByteSink>(sink: &mut S, buf: &[u8]) -> (r: Result<(), SinkError>)
    ensures
        r is Ok ==> final(sink).written() == old(sink).written() + buf@,
        r is Err ==> exists|k: int|
            0 <= k < buf@.len() && final(sink).written() == old(sink).written() + buf@.take(k),
        final(sink).config() == old(sink).config(),
        old(sink).valid() ==> final(sink).valid(),
        old(sink).infallible() ==> r is Ok && final(sink).infallible(),
{
    let ghost init_written = sink.written();
    let ghost init_infallible = sink.infallible();
    let mut i: usize = 0;
    while i < buf.len()
        invariant
            i <= buf.len(),
            init_written == old(sink).written(),
            init_infallible == old(sink).infallible(),
            sink.written() == init_written + buf@.take(i as int),
            sink.config() == old(sink).config(),
            old(sink).valid() ==> sink.valid(),
            init_infallible ==> sink.infallible(),
        decreases buf.len() - i,
    {
        let ghost before = sink.written();
        match sink.write_byte(buf[i]) {
            Ok(()) => {
                proof {
                    assert(before.push(buf@[i as int]) =~= init_written + buf@.take(i as int + 1));
                }
            },
            Err(e) => {
                proof {
                    assert(sink.written() == init_written + buf@.take(i as int));
                }
                return Err(e);
            },
        }
        i = i + 1;
    }
    proof {
        assert(init_written + buf@.take(buf@.len() as int) =~= init_written + buf@);
    }
    Ok(())
}

/// Emit the tail of the template that starts at byte `ti`, with the
/// arguments from position `ai` on still to be consumed.
fn emit_from<S: ByteSink>(
    sink: &mut S,
    template: &[u8],
    args: &[Vec<u8>],
    ti: usize,
    ai: usize,
) -> (r: Result<(), SinkError>)
    requires
        ti <= template@.len(),
        ai <= args@.len(),
        wf_template(template@.skip(ti as int)),
        directive_count(template@.skip(ti as int)) == args@.len() - ai,
    ensures
        r is Ok ==> final(sink).written() == old(sink).written() + expand(
            template@.skip(ti as int),
            arg_views(args@).skip(ai as int),
        ),
        r is Err ==> exists|k: int|
            0 <= k <= expand(template@.skip(ti as int), arg_views(args@).skip(ai as int)).len()
                && final(sink).written() == old(sink).written() + expand(
                template@.skip(ti as int),
                arg_views(args@).skip(ai as int),
            ).take(k),
        final(sink).config() == old(sink).config(),
        old(sink).valid() ==> final(sink).valid(),
        old(sink).infallible() ==> r is Ok && final(sink).infallible(),
    decreases template@.len() - ti,
{
    let ghost t = template@.skip(ti as int);
    let ghost a = arg_views(args@).skip(ai as int);
    let ghost total = expand(t, a);
    let ghost init_written = sink.written();
    if ti == template.len() {
        proof {
            assert(t =~= Seq::<u8>::empty());
            assert(init_written + total =~= init_written);
        }
        return Ok(());
    }
    let c = template[ti];
    proof {
        assert(t[0] == template@[ti as int]);
    }
    if c == LBRACE || c == RBRACE {
        // A well-formed template pairs every brace: the next byte closes a
        // directive or doubles the brace.
        let d = template[ti + 1];
        proof {
            assert(t[1] == template@[ti as int + 1]);
            assert(template@.skip(ti as int + 2) =~= t.skip(2));
        }
        if c == LBRACE && d == RBRACE {
            // A substitution directive: write the next argument whole.
            proof {
                assert(a[0] == arg_views(args@)[ai as int]);
                assert(arg_views(args@).skip(ai as int + 1) =~= a.skip(1));
                assert(total == a[0] + expand(t.skip(2), a.skip(1)));
            }
            let ghost chunk = a[0];
            let ghost rest = expand(t.skip(2), a.skip(1));
            match write_all(sink, args[ai].as_slice()) {
                Ok(()) => {},
                Err(e) => {
                    proof {
                        let k = choose|k: int|
                            0 <= k < chunk.len() && sink.written() == init_written + chunk.take(k);
                        assert(total.take(k) =~= chunk.take(k));
                    }
                    return Err(e);
                },
            }
            let ghost mid_written = sink.written();
            match emit_from(sink, template, args, ti + 2, ai + 1) {
                Ok(()) => {
                    proof {
                        assert(mid_written + rest =~= init_written + total);
                    }
                    Ok(())
                },
                Err(e) => {
                    proof {
                        let k = choose|k: int|
                            0 <= k <= rest.len() && sink.written() == mid_written + rest.take(k);
                        assert(mid_written + rest.take(k) =~= init_written + total.take(
                            chunk.len() + k,
                        ));
                    }
                    Err(e)
                },
            }
        } else {
            // An escape: `{{` or `}}` stands for one literal brace.
            proof {
                assert(total == seq![t[0]] + expand(t.skip(2), a));
            }
            let ghost rest = expand(t.skip(2), a);
            match sink.write_byte(c) {
                Ok(()) => {},
                Err(e) => {
                    proof {
                        assert(total.take(0) =~= Seq::<u8>::empty());
                        assert(init_written + total.take(0) =~= init_written);
                    }
                    return Err(e);
                },
            }
            let ghost mid_written = sink.written();
            match emit_from(sink, template, args, ti + 2, ai) {
                Ok(()) => {
                    proof {
                        assert(mid_written + rest =~= init_written + total);
                    }
                    Ok(())
                },
                Err(e) => {
                    proof {
                        let k = choose|k: int|
                            0 <= k <= rest.len() && sink.written() == mid_written + rest.take(k);
                        assert(mid_written + rest.take(k) =~= init_written + total.take(1 + k));
                    }
                    Err(e)
                },
            }
        }
    } else {
        // A literal byte stands for itself.
        proof {
            assert(total == seq![t[0]] + expand(t.skip(1), a));
            assert(template@.skip(ti as int + 1) =~= t.skip(1));
        }
        let ghost rest = expand(t.skip(1), a);
        match sink.write_byte(c) {
            Ok(()) => {},
            Err(e) => {
                proof {
                    assert(total.take(0) =~= Seq::<u8>::empty());
                    assert(init_written + total.take(0) =~= init_written);
                }
                return Err(e);
            },
        }
        let ghost mid_written = sink.written();
        match emit_from(sink, template, args, ti + 1, ai) {
            Ok(()) => {
                proof {
                    assert(mid_written + rest =~= init_written + total);
                }
                Ok(())
            },
            Err(e) => {
                proof {
                    let k = choose|k: int|
                        0 <= k <= rest.len() && sink.written() == mid_written + rest.take(k);
                    assert(mid_written + rest.take(k) =~= init_written + total.take(1 + k));
                }
                Err(e)
            },
        }
    }
}

/// Expand the template against the arguments and write every resulting
/// byte to the sink, left to right, exactly once each.  Fails only when
/// the sink refuses a write; the bytes written before the refusal stay
/// written, and nothing is written after it.
pub fn emit<S: ByteSink>(sink: &mut S, template: &[u8], args: &[Vec<u8>]) -> (r: Result<
    (),
    SinkError,
>)
    requires
        wf_template(template@),
        directive_count(template@) == args@.len(),
    ensures
        r is Ok ==> final(sink).written() == old(sink).written() + expand(
            template@,
            arg_views(args@),
        ),
        r is Err ==> exists|k: int|
            0 <= k <= expand(template@, arg_views(args@)).len() && final(sink).written() == old(
                sink,
            ).written() + expand(template@, arg_views(args@)).take(k),
        final(sink).config() == old(sink).config(),
        old(sink).valid() ==> final(sink).valid(),
        old(sink).infallible() ==> r is Ok && final(sink).infallible(),
{
    proof {
        assert(template@.skip(0) =~= template@);
        assert(arg_views(args@).skip(0) =~= arg_views(args@));
    }
    emit_from(sink, template, args, 0, 0)
}

/// Like `emit`, followed unconditionally by one line terminator, even
/// for an empty template.
pub fn emit_line<S: ByteSink>(sink: &mut S, template: &[u8], args: &[Vec<u8>]) -> (r: Result<
    (),
    SinkError,
>)
    requires
        wf_template(template@),
        directive_count(template@) == args@.len(),
    ensures
        r is Ok ==> final(sink).written() == old(sink).written() + expand_line(
            template@,
            arg_views(args@),
        ),
        r is Err ==> exists|k: int|
            0 <= k <= expand_line(template@, arg_views(args@)).len() && final(sink).written()
                == old(sink).written() + expand_line(template@, arg_views(args@)).take(k),
        final(sink).config() == old(sink).config(),
        old(sink).valid() ==> final(sink).valid(),
        old(sink).infallible() ==> r is Ok && final(sink).infallible(),
{
    let ghost body = expand(template@, arg_views(args@));
    let ghost line = expand_line(template@, arg_views(args@));
    let ghost init_written = sink.written();
    match emit(sink, template, args) {
        Ok(()) => {},
        Err(e) => {
            proof {
                let k = choose|k: int|
                    0 <= k <= body.len() && sink.written() == init_written + body.take(k);
                assert(line.take(k) =~= body.take(k));
            }
            return Err(e);
        },
    }
    match sink.write_byte(NEWLINE) {
        Ok(()) => {
            proof {
                assert((init_written + body).push(NEWLINE) =~= init_written + line);
            }
            Ok(())
        },
        Err(e) => {
            proof {
                assert(line.take(body.len() as int) =~= body);
            }
            Err(e)
        },
    }
}

/// Format to the host-stream writer.  That writer never refuses a byte,
/// so the call always succeeds and returns nothing; the embedding layer
/// then drains the buffer through the host's bulk write.
pub fn print(writer: &mut DebugWriter, template: &[u8], args: &[Vec<u8>])
    requires
        wf_template(template@),
        directive_count(template@) == args@.len(),
    ensures
        final(writer).written() == old(writer).written() + expand(template@, arg_views(args@)),
        final(writer).config() == old(writer).config(),
        final(writer).valid(),
{
    let r = emit(writer, template, args);
    proof {
        assert(r is Ok);
    }
}

/// On a bounded sink with no room at all, any outcome that the
/// line-oriented emit's contract admits is the sink error: the line
/// terminator alone already needs one byte of room, while a well-formed
/// sink of capacity zero holds none.
pub proof fn lemma_no_room_emit_line_fails(
    pre: BoundedSink,
    post: BoundedSink,
    r: Result<(), SinkError>,
    t: Seq<u8>,
    a: Seq<Seq<u8>>,
)
    requires
        pre.capacity == 0,
        post.valid(),
        post.config() == pre.config(),
        r is Ok ==> post.written() == pre.written() + expand_line(t, a),
    ensures
        r is Err,
{
    if r is Ok {
        assert(post.written().len() == pre.written().len() + expand(t, a).len() + 1);
        assert(post.accepted@.len() <= post.capacity);
        assert(false);
    }
}

} // verus!
