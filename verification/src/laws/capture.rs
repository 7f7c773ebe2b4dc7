//! What reading captured bytes does.

use crate::error::Error;
use crate::fingerprint::capture::{is_grease, parse_extension, Reader};
use crate::fingerprint::spec::Fingerprint;
use crate::fingerprint::wire::record_of;
use vstd::prelude::*;

verus! {

/// A value is a GREASE value exactly where it is one of the sixteen from 0x0A0A
/// in steps of 0x1010.
pub proof fn law_grease_detection(v: u16, r: bool)
    requires
        call_ensures(is_grease, (v,), r),
    ensures
        r <==> v >= 0x0A0A && (v - 0x0A0A) % 0x1010 == 0,
{
    crate::fingerprint::capture::law_reserved_values(v);
}

/// A reader hands out the bytes it was given from the front, each once, and
/// takes none where there are too few.
pub proof fn law_readers<'a>(
    r: &mut Reader<'a>,
    n: usize,
    label: &str,
    taken: Result<&'a [u8], Error>,
    buf: &'a [u8],
    fresh: Reader<'a>,
    left: usize,
)
    requires
        call_ensures(Reader::<'a>::take, (r, n, label), taken),
        call_ensures(Reader::<'a>::new, (buf,), fresh),
        call_ensures(Reader::<'a>::remaining, (&fresh,), left),
    ensures
        fresh@ == buf@,
        left == buf@.len(),
        taken is Ok <==> n <= old(r)@.len(),
        taken is Err ==> final(r)@ == old(r)@ && taken->Err_0 is Usage,
        taken matches Ok(s) ==> s@.len() == n && s@ + final(r)@ == old(r)@,
{
    if let Ok(s) = taken {
        assert(s@ + final(r)@ =~= old(r)@);
    }
}

/// Numbers are read with their highest byte first.
pub proof fn law_numbers_are_read<'a>(
    r: &mut Reader<'a>,
    s: &mut Reader<'a>,
    t: &mut Reader<'a>,
    label: &str,
    one: Result<u8, Error>,
    two: Result<u16, Error>,
    three: Result<u32, Error>,
)
    requires
        call_ensures(Reader::<'a>::u8, (r, label), one),
        call_ensures(Reader::<'a>::u16, (s, label), two),
        call_ensures(Reader::<'a>::u24, (t, label), three),
    ensures
        one is Ok <==> old(r)@.len() >= 1,
        one matches Ok(v) ==> v == old(r)@[0] && final(r)@ == old(r)@.skip(1),
        one is Err ==> final(r)@ == old(r)@,
        two is Ok <==> old(s)@.len() >= 2,
        two matches Ok(v) ==> v == 256 * old(s)@[0] + old(s)@[1] && final(s)@ == old(s)@.skip(2),
        two is Err ==> final(s)@ == old(s)@,
        three is Ok <==> old(t)@.len() >= 3,
        three matches Ok(v) ==> v == 65536 * old(t)@[0] + 256 * old(t)@[1] + old(t)@[2] && final(t)@ == old(t)@.skip(3),
        three is Err ==> final(t)@ == old(t)@,
{
}

/// An extension changes a fingerprint as its contents say, or, where they are
/// malformed, not at all.
pub proof fn law_extensions_are_read(
    kind: u16,
    body: &[u8],
    fp: &mut Fingerprint,
    r: Result<(), Error>,
)
    requires
        call_ensures(parse_extension, (kind, body, fp), r),
    ensures
        r is Ok <==> crate::fingerprint::capture::extension(kind, body@, old(fp)@) is Ok,
        r is Ok ==> crate::fingerprint::capture::extension(kind, body@, old(fp)@) == Ok::<
            crate::fingerprint::spec::FingerprintModel,
            Seq<char>,
        >(final(fp)@),
        r is Err ==> final(fp)@ == old(fp)@ && r->Err_0 is Usage,
{
}

/// The body of a ClientHello is put behind the headers of a record and of a
/// message, with the length of what follows in each, and nothing is added or
/// lost; a body that is too long for a record is not.
pub proof fn law_records(body: &[u8], r: Option<Vec<u8>>)
    requires
        call_ensures(record_of, (body,), r),
    ensures
        r is Some <==> body@.len() + 4 <= 65535,
        r matches Some(v) ==> {
            &&& v@.len() == body@.len() + 9
            &&& v@.skip(9) == body@
            &&& v@[0] == 0x16
            &&& v@[5] == 0x01
            &&& 256 * v@[3] + v@[4] == body@.len() + 4
            &&& 65536 * v@[6] + 256 * v@[7] + v@[8] == body@.len()
            &&& crate::fingerprint::capture::client_hello(v@)
                == crate::fingerprint::capture::hello(body@)
        },
{
    if let Some(v) = r {
        crate::fingerprint::wire::law_record_of_body(body@);
        assert(v@.skip(9) =~= body@);
    }
}

} // verus!
