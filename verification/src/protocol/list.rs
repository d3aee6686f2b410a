//! Repeated fields: a count followed by that many elements.

use vstd::prelude::*;
use vstd::utf8::encode_utf8;

use crate::error::{Fault, Result};
use crate::protocol::cursor::Cursor;
use crate::protocol::types::{decodes, protocol_error, McString, VarInt};
use crate::protocol::wire::{
    lemma_parse_string_bound, lemma_parse_varint_range, lemma_string_roundtrip, lemma_varint_roundtrip, parse_string,
    parse_varint, string_bytes, varint_bytes, Parsed,
};

verus! {

/// A value that can stand in a repeated field: it has a wire form, a
/// decoder, and the two agree.
pub trait Element: Sized + View {
    /// The bytes of one element.
    spec fn wire(v: Self::V) -> Seq<u8>;

    /// What the decoder makes of a byte sequence.
    spec fn parse(bytes: Seq<u8>) -> Parsed<Self::V>;

    /// Whether the element can be written at all.
    spec fn encodable(v: Self::V) -> bool;

    /// Decoding what the writer emits recovers the element, and stops
    /// exactly where it ends.
    proof fn lemma_roundtrip(v: Self::V, tail: Seq<u8>)
        requires
            Self::encodable(v),
        ensures
            Self::parse(Self::wire(v) + tail) == Ok::<(Self::V, Seq<u8>), Fault>((v, tail)),
    ;

    /// Whatever the decoder accepts can be written again.
    proof fn lemma_parsed_encodable(bytes: Seq<u8>)
        requires
            Self::parse(bytes) is Ok,
        ensures
            Self::encodable(Self::parse(bytes)->Ok_0.0),
    ;

    /// Reads one element.
    fn read_from(reader: &mut Cursor) -> (r: Result<Self>)
        ensures
            final(reader).follows(*old(reader)),
            decodes(r, final(reader)@, Self::parse(old(reader)@)),
    ;

    /// Writes one element.
    fn write_to(&self, writer: &mut Vec<u8>) -> (r: Result<()>)
        ensures
            r is Ok <==> Self::encodable(self@),
            r is Ok ==> final(writer)@ == old(writer)@ + Self::wire(self@),
            r matches Err(e) ==> e.fault() == Some(Fault::Malformed) && old(writer)@.is_prefix_of(
                final(writer)@,
            ),
    ;
}

/// The views of the items of a sequence, in order.
pub open spec fn views<T: View>(items: Seq<T>) -> Seq<T::V> {
    items.map_values(|x: T| x@)
}

/// The bytes of the elements, one after another.
pub open spec fn list_wire<T: Element>(items: Seq<T::V>) -> Seq<u8>
    decreases items.len(),
{
    if items.len() == 0 {
        Seq::empty()
    } else {
        T::wire(items[0]) + list_wire::<T>(items.drop_first())
    }
}

/// Decoder of `count` elements in a row.
pub open spec fn parse_list<T: Element>(bytes: Seq<u8>, count: nat) -> Parsed<Seq<T::V>>
    decreases count,
{
    if count == 0 {
        Ok((Seq::empty(), bytes))
    } else {
        match T::parse(bytes) {
            Err(e) => Err(e),
            Ok((first, rest)) => match parse_list::<T>(rest, (count - 1) as nat) {
                Err(e) => Err(e),
                Ok((others, after)) => Ok((seq![first] + others, after)),
            },
        }
    }
}

/// Whether every element can be written.
pub open spec fn list_encodable<T: Element>(items: Seq<T::V>) -> bool {
    forall|i: int| 0 <= i < items.len() ==> T::encodable(#[trigger] items[i])
}

/// The bytes of a counted list: the number of elements as a VarInt, then
/// the elements.
pub open spec fn counted_wire<T: Element>(items: Seq<T::V>) -> Seq<u8> {
    varint_bytes(items.len() as int) + list_wire::<T>(items)
}

/// Decoder of a counted list; a negative count announces no element.
pub open spec fn parse_counted<T: Element>(bytes: Seq<u8>) -> Parsed<Seq<T::V>> {
    match parse_varint(bytes) {
        Err(e) => Err(e),
        Ok((count, rest)) => parse_list::<T>(
            rest,
            if count < 0 {
                0
            } else {
                count as nat
            },
        ),
    }
}

/// Whether a counted list can be written: its length fits a VarInt and
/// every element can be written.
pub open spec fn counted_encodable<T: Element>(items: Seq<T::V>) -> bool {
    items.len() <= 0x7fff_ffff && list_encodable::<T>(items)
}

/// Decoding the bytes of a list recovers the list, whatever follows it.
pub proof fn lemma_list_roundtrip<T: Element>(items: Seq<T::V>, tail: Seq<u8>)
    requires
        list_encodable::<T>(items),
    ensures
        parse_list::<T>(list_wire::<T>(items) + tail, items.len()) == Ok::<
            (Seq<T::V>, Seq<u8>),
            Fault,
        >((items, tail)),
    decreases items.len(),
{
    if items.len() == 0 {
        assert(list_wire::<T>(items) + tail =~= tail);
        assert(items =~= Seq::<T::V>::empty());
    } else {
        let others = items.drop_first();
        let rest = list_wire::<T>(others) + tail;
        assert(list_wire::<T>(items) + tail =~= T::wire(items[0]) + rest);
        T::lemma_roundtrip(items[0], rest);
        assert(list_encodable::<T>(others)) by {
            assert forall|i: int| 0 <= i < others.len() implies T::encodable(
                #[trigger] others[i],
            ) by {
                assert(others[i] == items[i + 1]);
            }
        }
        lemma_list_roundtrip::<T>(others, tail);
        assert(seq![items[0]] + others =~= items);
    }
}

/// Decoding the bytes of a counted list recovers the list, whatever
/// follows it.
pub proof fn lemma_counted_roundtrip<T: Element>(items: Seq<T::V>, tail: Seq<u8>)
    requires
        counted_encodable::<T>(items),
    ensures
        parse_counted::<T>(counted_wire::<T>(items) + tail) == Ok::<(Seq<T::V>, Seq<u8>), Fault>(
            (items, tail),
        ),
{
    let rest = list_wire::<T>(items) + tail;
    assert(counted_wire::<T>(items) + tail =~= varint_bytes(items.len() as int) + rest);
    lemma_varint_roundtrip(items.len() as int, rest);
    lemma_list_roundtrip::<T>(items, tail);
}

/// Whatever the list decoder accepts has the length asked for and can be
/// written again.
pub proof fn lemma_parsed_list<T: Element>(bytes: Seq<u8>, count: nat)
    requires
        parse_list::<T>(bytes, count) is Ok,
    ensures
        parse_list::<T>(bytes, count)->Ok_0.0.len() == count,
        list_encodable::<T>(parse_list::<T>(bytes, count)->Ok_0.0),
    decreases count,
{
    if count > 0 {
        T::lemma_parsed_encodable(bytes);
        let rest = T::parse(bytes)->Ok_0.1;
        lemma_parsed_list::<T>(rest, (count - 1) as nat);
    }
}

/// Whatever the counted-list decoder accepts can be written again.
pub proof fn lemma_parsed_counted<T: Element>(bytes: Seq<u8>)
    requires
        parse_counted::<T>(bytes) is Ok,
    ensures
        counted_encodable::<T>(parse_counted::<T>(bytes)->Ok_0.0),
{
    let count = parse_varint(bytes)->Ok_0.0;
    let rest = parse_varint(bytes)->Ok_0.1;
    lemma_parse_varint_range(bytes);
    lemma_parsed_list::<T>(
        rest,
        if count < 0 {
            0
        } else {
            count as nat
        },
    );
}

/// What the list decoder yields once `done` has been read before it.
pub open spec fn after_items<V>(p: Parsed<Seq<V>>, done: Seq<V>) -> Parsed<Seq<V>> {
    match p {
        Ok((others, rest)) => Ok((done + others, rest)),
        Err(e) => Err(e),
    }
}

/// Reads `count` elements in a row.
pub fn read_list<T: Element>(reader: &mut Cursor, count: usize) -> (r: Result<Vec<T>>)
    ensures
        final(reader).follows(*old(reader)),
        match r {
            Ok(items) => parse_list::<T>(old(reader)@, count as nat) == Ok::<
                (Seq<T::V>, Seq<u8>),
                Fault,
            >((views(items@), final(reader)@)),
            Err(e) => parse_list::<T>(old(reader)@, count as nat) is Err && e.fault() == Some(
                parse_list::<T>(old(reader)@, count as nat)->Err_0,
            ),
        },
{
    let mut items: Vec<T> = Vec::new();
    let mut i: usize = 0;
    assert(views(items@) =~= Seq::<T::V>::empty());
    assert(after_items(parse_list::<T>(reader@, count as nat), views(items@)) =~= parse_list::<T>(
        reader@,
        count as nat,
    )) by {
        let p = parse_list::<T>(reader@, count as nat);
        if p is Ok {
            assert(views(items@) + p->Ok_0.0 =~= p->Ok_0.0);
        }
    }
    while i < count
        invariant
            i <= count,
            items@.len() == i,
            reader.follows(*old(reader)),
            parse_list::<T>(old(reader)@, count as nat) == after_items(
                parse_list::<T>(reader@, (count - i) as nat),
                views(items@),
            ),
        decreases count - i,
    {
        let ghost before = reader@;
        let ghost done = views(items@);
        let item = T::read_from(reader)?;
        items.push(item);
        i = i + 1;
        proof {
            let here = parse_list::<T>(reader@, (count - i) as nat);
            assert(views(items@) =~= done + seq![item@]);
            if here is Ok {
                assert(done + (seq![item@] + here->Ok_0.0) =~= views(items@) + here->Ok_0.0);
            }
        }
    }
    assert(views(items@) + Seq::<T::V>::empty() =~= views(items@));
    Ok(items)
}

/// Writes the elements one after another, stopping at the first that cannot
/// be written.
pub fn write_list<T: Element>(items: &Vec<T>, writer: &mut Vec<u8>) -> (r: Result<()>)
    ensures
        r is Ok <==> list_encodable::<T>(views(items@)),
        r is Ok ==> final(writer)@ == old(writer)@ + list_wire::<T>(views(items@)),
        r matches Err(e) ==> e.fault() == Some(Fault::Malformed) && old(writer)@.is_prefix_of(
            final(writer)@,
        ),
{
    let mut i: usize = 0;
    let ghost all = views(items@);
    assert(all.skip(0) =~= all);
    while i < items.len()
        invariant
            i <= items@.len(),
            all == views(items@),
            old(writer)@.is_prefix_of(writer@),
            forall|j: int| 0 <= j < i ==> T::encodable(#[trigger] all[j]),
            writer@ + list_wire::<T>(all.skip(i as int)) == old(writer)@ + list_wire::<T>(all),
        decreases items@.len() - i,
    {
        let ghost before = writer@;
        let ghost tail_items = all.skip(i as int);
        assert(tail_items[0] == items@[i as int]@);
        assert(tail_items.drop_first() =~= all.skip(i + 1));
        match items[i].write_to(writer) {
            Err(e) => {
                assert(!T::encodable(all[i as int]));
                return Err(e);
            },
            Ok(()) => {
                assert(writer@ + list_wire::<T>(all.skip(i + 1)) =~= before + list_wire::<T>(
                    tail_items,
                ));
            },
        }
        i = i + 1;
    }
    assert(all.skip(i as int) =~= Seq::<T::V>::empty());
    assert(writer@ =~= old(writer)@ + list_wire::<T>(all));
    Ok(())
}

/// Reads a counted list; a negative count announces no element.
pub fn read_counted<T: Element>(reader: &mut Cursor) -> (r: Result<Vec<T>>)
    ensures
        final(reader).follows(*old(reader)),
        match r {
            Ok(items) => parse_counted::<T>(old(reader)@) == Ok::<(Seq<T::V>, Seq<u8>), Fault>(
                (views(items@), final(reader)@),
            ),
            Err(e) => parse_counted::<T>(old(reader)@) is Err && e.fault() == Some(
                parse_counted::<T>(old(reader)@)->Err_0,
            ),
        },
{
    let count = VarInt::read(reader)?;
    let count: usize = if count.0 < 0 {
        0
    } else {
        count.0 as usize
    };
    read_list::<T>(reader, count)
}

/// Writes a counted list, or fails when it has more elements than a VarInt
/// can announce or an element cannot be written.
pub fn write_counted<T: Element>(items: &Vec<T>, writer: &mut Vec<u8>) -> (r: Result<()>)
    ensures
        r is Ok <==> counted_encodable::<T>(views(items@)),
        r is Ok ==> final(writer)@ == old(writer)@ + counted_wire::<T>(views(items@)),
        r matches Err(e) ==> e.fault() == Some(Fault::Malformed) && old(writer)@.is_prefix_of(
            final(writer)@,
        ),
{
    if items.len() > 0x7fff_ffff {
        return Err(protocol_error("too many elements"));
    }
    let _ = VarInt(items.len() as i32).write(writer);
    let ghost mid = writer@;
    let r = write_list::<T>(items, writer);
    proof {
        if r is Ok {
            assert(writer@ =~= old(writer)@ + counted_wire::<T>(views(items@)));
        }
    }
    r
}

impl Element for McString {
    open spec fn wire(v: Seq<char>) -> Seq<u8> {
        string_bytes(v)
    }

    open spec fn parse(bytes: Seq<u8>) -> Parsed<Seq<char>> {
        parse_string(bytes, 32767)
    }

    open spec fn encodable(v: Seq<char>) -> bool {
        encode_utf8(v).len() <= 32767
    }

    proof fn lemma_roundtrip(v: Seq<char>, tail: Seq<u8>) {
        lemma_string_roundtrip(v, 32767, tail);
    }

    proof fn lemma_parsed_encodable(bytes: Seq<u8>) {
        lemma_parse_string_bound(bytes, 32767);
    }

    fn read_from(reader: &mut Cursor) -> (r: Result<Self>) {
        McString::read(reader)
    }

    fn write_to(&self, writer: &mut Vec<u8>) -> (r: Result<()>) {
        self.write(writer)
    }
}

} // verus!
