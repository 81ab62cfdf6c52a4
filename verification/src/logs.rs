use vstd::prelude::*;
use vstd::utf8::*;

verus! {

/// `String::from_utf8`. Its documentation says it fails exactly when the bytes are
/// not valid UTF-8, and otherwise returns a string made of those very bytes; this
/// contract claims that, over vstd's model of UTF-8.
#[verifier::external_body]
fn string_from_utf8(bytes: Vec<u8>) -> (s: Option<String>)
    ensures
        s is Some <==> valid_utf8(bytes@),
        s matches Some(t) ==> encode_utf8(t@) == bytes@,
{
    String::from_utf8(bytes).ok()
}

/// The log line made of the bytes that one read up to a newline returned:
/// nothing at end of input (no byte read) or when the bytes are not UTF-8,
/// else the line, newline included when one was read.
pub fn line_from_read(bytes: Vec<u8>) -> (line: Option<String>)
    ensures
        bytes@.len() == 0 ==> line is None,
        bytes@.len() > 0 ==> (line is Some <==> valid_utf8(bytes@)),
        line matches Some(s) ==> encode_utf8(s@) == bytes@,
{
    if bytes.len() == 0 {
        None
    } else {
        string_from_utf8(bytes)
    }
}

/// The byte that ends a line.
pub open spec fn newline_byte() -> u8 {
    10
}

/// Valid UTF-8 cut right after a newline byte leaves two parts that are each valid UTF-8.
pub proof fn lemma_cut_after_newline(bytes: Seq<u8>, i: int)
    requires
        valid_utf8(bytes),
        0 < i <= bytes.len(),
        bytes[i - 1] == newline_byte(),
    ensures
        valid_utf8(bytes.subrange(0, i)),
        valid_utf8(bytes.subrange(i, bytes.len() as int)),
{
    is_char_boundary_iff_not_is_continuation_byte(bytes, i - 1);
    valid_utf8_split(bytes, i - 1);
    let head = bytes.subrange(0, i - 1);
    let tail = bytes.subrange(i - 1, bytes.len() as int);
    assert(tail[0] == newline_byte());
    assert(valid_first_scalar(tail));
    assert(length_of_first_scalar(tail) == 1);
    assert(pop_first_scalar(tail) =~= bytes.subrange(i, bytes.len() as int));
    let nl = seq![newline_byte()];
    assert(pop_first_scalar(nl) =~= Seq::<u8>::empty());
    assert(valid_utf8(nl)) by {
        reveal_with_fuel(valid_utf8, 2);
    }
    valid_utf8_concat(head, nl);
    assert(head + nl =~= bytes.subrange(0, i));
}

/// Reading valid UTF-8 input line by line loses nothing: when the input is cut into
/// non-empty pieces, each ending with a newline except possibly the last (as reads
/// up to a newline cut it), every piece is valid UTF-8, so [`line_from_read`] turns
/// each into a line whose bytes are exactly that piece.
pub proof fn lemma_lines_of_valid_input(pieces: Seq<Seq<u8>>)
    requires
        valid_utf8(pieces.flatten()),
        forall|k: int| 0 <= k < pieces.len() ==> #[trigger] pieces[k].len() > 0,
        forall|k: int| 0 <= k < pieces.len() - 1 ==> #[trigger] pieces[k].last() == newline_byte(),
    ensures
        forall|k: int| 0 <= k < pieces.len() ==> valid_utf8(#[trigger] pieces[k]),
    decreases pieces.len(),
{
    if pieces.len() == 0 {
    } else if pieces.len() == 1 {
        assert(pieces.drop_first().flatten() =~= Seq::<u8>::empty());
        assert(pieces.flatten() =~= pieces[0]);
    } else {
        let first = pieces[0];
        let rest = pieces.drop_first();
        let all = pieces.flatten();
        assert(all == first + rest.flatten());
        assert(first.len() > 0);
        assert(first.last() == newline_byte());
        assert(all[first.len() - 1] == newline_byte());
        lemma_cut_after_newline(all, first.len() as int);
        assert(all.subrange(0, first.len() as int) =~= first);
        assert(all.subrange(first.len() as int, all.len() as int) =~= rest.flatten());
        assert forall|k: int| 0 <= k < rest.len() implies #[trigger] rest[k].len() > 0 by {
            assert(rest[k] == pieces[k + 1]);
        }
        assert forall|k: int| 0 <= k < rest.len() - 1 implies #[trigger] rest[k].last()
            == newline_byte() by {
            assert(rest[k] == pieces[k + 1]);
        }
        lemma_lines_of_valid_input(rest);
        assert forall|k: int| 0 <= k < pieces.len() implies valid_utf8(#[trigger] pieces[k]) by {
            if k > 0 {
                assert(pieces[k] == rest[k - 1]);
            }
        }
    }
}

} // verus!
