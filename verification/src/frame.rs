//! The call frame: an ordered list of byte strings packed into one buffer.
//!
//! A frame is a four-byte big-endian count, then for each element a
//! four-byte big-endian length and that many bytes.

use crate::big_endian::{
    be_bytes, be_value, decode_be, encode_be, lemma_be_bytes_len, lemma_be_bytes_of_value,
    lemma_be_value_bound, lemma_be_value_of_bytes, pow256,
};
use crate::error::Error;
use vstd::prelude::*;
use vstd::slice::{slice_subrange, slice_to_vec};

verus! {

/// The byte strings that a list of borrowed arguments holds.
pub open spec fn arg_views(args: Seq<&[u8]>) -> Seq<Seq<u8>> {
    Seq::new(args.len(), |i: int| args[i]@)
}

/// The byte strings that a list of owned arguments holds.
pub open spec fn vec_views(args: Seq<Vec<u8>>) -> Seq<Seq<u8>> {
    Seq::new(args.len(), |i: int| args[i]@)
}

/// One element of a frame: the length of `arg`, then `arg`.
pub open spec fn element(arg: Seq<u8>) -> Seq<u8> {
    be_bytes(arg.len(), 4) + arg
}

/// The elements of a frame, one after the other.
pub open spec fn elements(args: Seq<Seq<u8>>) -> Seq<u8>
    decreases args.len(),
{
    if args.len() == 0 {
        Seq::empty()
    } else {
        element(args.first()) + elements(args.drop_first())
    }
}

/// The frame that packs `args`.
pub open spec fn frame(args: Seq<Seq<u8>>) -> Seq<u8> {
    be_bytes(args.len(), 4) + elements(args)
}

/// Whether the count of `args` and the length of each of them fit their
/// four-byte prefixes.
pub open spec fn fits_frame(args: Seq<Seq<u8>>) -> bool {
    &&& args.len() < pow256(4)
    &&& forall|i: int| 0 <= i < args.len() ==> (#[trigger] args[i]).len() < pow256(4)
}

/// The first `count` elements that `bytes` start with, if they are all there.
pub open spec fn parse_elements(bytes: Seq<u8>, count: nat) -> Option<Seq<Seq<u8>>>
    decreases count,
{
    if count == 0 {
        Some(Seq::empty())
    } else if bytes.len() < 4 {
        None
    } else {
        let size = be_value(bytes.take(4)) as int;
        if bytes.len() < 4 + size {
            None
        } else {
            match parse_elements(bytes.skip(4 + size), (count - 1) as nat) {
                Some(rest) => Some(seq![bytes.subrange(4, 4 + size)] + rest),
                None => None,
            }
        }
    }
}

/// The arguments of the frame that `bytes` start with, if there is one.
pub open spec fn parse_frame(bytes: Seq<u8>) -> Option<Seq<Seq<u8>>> {
    if bytes.len() < 4 {
        None
    } else {
        parse_elements(bytes.skip(4), be_value(bytes.take(4)))
    }
}

/// The outcome of unpacking a frame, seen through the views of the arguments.
pub open spec fn unpacked(r: Result<Vec<Vec<u8>>, Error>) -> Result<Seq<Seq<u8>>, Error> {
    match r {
        Ok(args) => Ok(vec_views(args@)),
        Err(e) => Err(e),
    }
}

proof fn lemma_elements_push(args: Seq<Seq<u8>>, arg: Seq<u8>)
    ensures
        elements(args.push(arg)) == elements(args) + element(arg),
    decreases args.len(),
{
    if args.len() == 0 {
        reveal_with_fuel(elements, 2);
        assert(args.push(arg).drop_first() =~= Seq::<Seq<u8>>::empty());
        assert(elements(args.push(arg)) =~= element(arg));
        assert(elements(args) + element(arg) =~= element(arg));
    } else {
        lemma_elements_push(args.drop_first(), arg);
        assert(args.push(arg).drop_first() =~= args.drop_first().push(arg));
        assert(elements(args.push(arg)) =~= elements(args) + element(arg));
    }
}

/// Unpacking reads back the elements that were packed, whatever follows them.
pub proof fn lemma_parse_elements(args: Seq<Seq<u8>>, rest: Seq<u8>)
    requires
        forall|i: int| 0 <= i < args.len() ==> (#[trigger] args[i]).len() < pow256(4),
    ensures
        parse_elements(elements(args) + rest, args.len()) == Some(args),
    decreases args.len(),
{
    if args.len() == 0 {
        assert(args =~= Seq::<Seq<u8>>::empty());
    } else {
        let first = args.first();
        let bytes = elements(args) + rest;
        let tail = elements(args.drop_first()) + rest;
        lemma_be_bytes_len(first.len(), 4);
        lemma_be_value_of_bytes(first.len(), 4);
        assert(bytes.take(4) =~= be_bytes(first.len(), 4));
        assert(bytes.subrange(4, 4 + first.len() as int) =~= first);
        assert(bytes.skip(4 + first.len() as int) =~= tail);
        assert forall|i: int| 0 <= i < args.drop_first().len() implies (
        #[trigger] args.drop_first()[i]).len() < pow256(4) by {
            assert(args.drop_first()[i] == args[i + 1]);
        }
        lemma_parse_elements(args.drop_first(), rest);
        assert(seq![first] + args.drop_first() =~= args);
    }
}

/// Frame round trip: unpacking a packed list gives the list back, for every
/// list whose count and lengths fit their prefixes, the empty list and empty
/// elements included.
pub proof fn lemma_frame_round_trip(args: Seq<Seq<u8>>)
    requires
        fits_frame(args),
    ensures
        parse_frame(frame(args)) == Some(args),
{
    lemma_be_bytes_len(args.len(), 4);
    lemma_be_value_of_bytes(args.len(), 4);
    assert(frame(args).take(4) =~= be_bytes(args.len(), 4));
    assert(frame(args).skip(4) =~= elements(args) + Seq::<u8>::empty());
    lemma_parse_elements(args, Seq::empty());
}

/// What unpacking yields is a list that fits its prefixes and whose packed
/// elements are what the bytes start with.
pub proof fn lemma_parse_elements_sound(bytes: Seq<u8>, count: nat)
    requires
        parse_elements(bytes, count) is Some,
    ensures
        parse_elements(bytes, count)->0.len() == count,
        forall|i: int|
            0 <= i < count ==> (#[trigger] parse_elements(bytes, count)->0[i]).len() < pow256(4),
        elements(parse_elements(bytes, count)->0).is_prefix_of(bytes),
    decreases count,
{
    let args = parse_elements(bytes, count)->0;
    if count > 0 {
        let size = be_value(bytes.take(4)) as int;
        let tail = bytes.skip(4 + size);
        let first = bytes.subrange(4, 4 + size);
        lemma_parse_elements_sound(tail, (count - 1) as nat);
        let rest = parse_elements(tail, (count - 1) as nat)->0;
        assert(args == seq![first] + rest);
        assert(args.drop_first() =~= rest);
        lemma_be_value_bound(bytes.take(4));
        lemma_be_bytes_of_value(bytes.take(4));
        assert forall|i: int| 0 <= i < count implies (#[trigger] args[i]).len() < pow256(4) by {
            if i > 0 {
                assert(args[i] == rest[i - 1]);
            }
        }
        assert(element(first) =~= bytes.take(4 + size));
        assert(elements(args) =~= element(first) + elements(rest));
        assert(elements(args).is_prefix_of(bytes)) by {
            let packed = elements(args);
            assert(packed.len() <= bytes.len());
            assert forall|i: int| 0 <= i < packed.len() implies packed[i] == bytes[i] by {
                if i >= 4 + size {
                    assert(elements(rest)[i - 4 - size] == tail[i - 4 - size]);
                }
            }
        }
    } else {
        assert(elements(args) =~= Seq::<u8>::empty());
    }
}

/// Packs `args` into one frame.
pub fn serialize_args(args: &[&[u8]]) -> (bs: Vec<u8>)
    ensures
        bs@ == frame(arg_views(args@)),
{
    let ghost views = arg_views(args@);
    let mut bs: Vec<u8> = encode_be(args.len() as u64, 4);
    let mut i: usize = 0;
    assert(views.take(0) =~= Seq::<Seq<u8>>::empty());
    while i < args.len()
        invariant
            i <= args@.len(),
            views == arg_views(args@),
            bs@ == be_bytes(args@.len(), 4) + elements(views.take(i as int)),
        decreases args@.len() - i,
    {
        let arg: &[u8] = args[i];
        let ghost before = bs@;
        let size = encode_be(arg.len() as u64, 4);
        bs.extend_from_slice(size.as_slice());
        bs.extend_from_slice(arg);
        proof {
            assert(views.take(i + 1) =~= views.take(i as int).push(arg@));
            lemma_elements_push(views.take(i as int), arg@);
            assert(bs@ =~= before + element(arg@));
        }
        i = i + 1;
    }
    assert(views.take(i as int) =~= views);
    bs
}

/// Unpacks the frame that `bs` starts with.  Fails with `TruncatedFrame`
/// where `bs` ends before the bytes that a prefix announces.
pub fn deserialize_args(bs: &[u8]) -> (r: Result<Vec<Vec<u8>>, Error>)
    ensures
        unpacked(r) == match parse_frame(bs@) {
            Some(args) => Ok::<Seq<Seq<u8>>, Error>(args),
            None => Err::<Seq<Seq<u8>>, Error>(Error::TruncatedFrame),
        },
{
    if bs.len() < 4 {
        return Err(Error::TruncatedFrame);
    }
    let count: u64 = decode_be(slice_subrange(bs, 0, 4));
    let mut args: Vec<Vec<u8>> = Vec::new();
    let mut offset: usize = 4;
    let mut k: u64 = 0;
    assert(bs@.subrange(0, 4) =~= bs@.take(4));
    assert(vec_views(args@) =~= Seq::<Seq<u8>>::empty());
    while k < count
        invariant
            k <= count,
            4 <= offset <= bs@.len(),
            count == be_value(bs@.take(4)),
            parse_frame(bs@) == match parse_elements(bs@.skip(offset as int), (count - k) as nat) {
                Some(rest) => Some(vec_views(args@) + rest),
                None => None,
            },
        decreases count - k,
    {
        let ghost here = bs@.skip(offset as int);
        if bs.len() - offset < 4 {
            return Err(Error::TruncatedFrame);
        }
        let size: u64 = decode_be(slice_subrange(bs, offset, offset + 4));
        assert(bs@.subrange(offset as int, offset + 4) =~= here.take(4));
        let left: u64 = (bs.len() - offset - 4) as u64;
        if left < size {
            return Err(Error::TruncatedFrame);
        }
        let end: usize = offset + 4 + size as usize;
        let arg: Vec<u8> = slice_to_vec(slice_subrange(bs, offset + 4, end));
        proof {
            assert(arg@ =~= here.subrange(4, 4 + size));
            assert(bs@.skip(end as int) =~= here.skip(4 + size));
            let ghost before = vec_views(args@);
            match parse_elements(bs@.skip(end as int), (count - k - 1) as nat) {
                Some(rest) => {
                    assert(before.push(arg@) + rest =~= before + (seq![arg@] + rest));
                },
                None => {},
            }
        }
        let ghost before = vec_views(args@);
        args.push(arg);
        assert(vec_views(args@) =~= before.push(arg@));
        offset = end;
        k = k + 1;
    }
    proof {
        assert(vec_views(args@) + Seq::<Seq<u8>>::empty() =~= vec_views(args@));
    }
    Ok(args)
}

} // verus!
