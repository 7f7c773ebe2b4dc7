//! What dispatch by server name answers.

use crate::sni::{
    reply_to, server_name_for_dispatch, sni_callback, SniAction, SniDispatcher, SniReply,
    SniSslHandle,
};
use vstd::prelude::*;

verus! {

/// The engine goes on with 0 and no alert, and aborts with 2 and the very alert
/// that was decided.
pub proof fn law_replies(action: SniAction, r: SniReply)
    requires
        call_ensures(reply_to, (action,), r),
    ensures
        r == action.reply(),
        action == SniAction::Proceed ==> r.code == 0 && r.alert is None,
        action matches SniAction::Abort(alert) ==> r.code == 2 && r.alert == Some(alert as i32),
{
}

/// A dispatcher sees the name that the client sent, where that is text; it sees
/// none where there is none, or where the bytes are no text.
pub proof fn law_dispatched_names(
    text: Seq<char>,
    bytes: &[u8],
    name: Option<String>,
    junk: &[u8],
    unread: Option<String>,
    none: Option<String>,
)
    requires
        bytes@ == vstd::utf8::encode_utf8(text),
        !vstd::utf8::valid_utf8(junk@),
        call_ensures(server_name_for_dispatch, (Some(bytes),), name),
        call_ensures(server_name_for_dispatch, (Some(junk),), unread),
        call_ensures(server_name_for_dispatch, (None,), none),
    ensures
        name matches Some(n) && n@ == text,
        unread is None,
        none is None,
{
    vstd::utf8::encode_utf8_valid_utf8(text);
    vstd::utf8::encode_utf8_decode_utf8(text);
}

/// Without a dispatcher every handshake goes on; with one, the answer is that
/// for a decision of this dispatcher on this handshake.
pub proof fn law_dispatch<D: SniDispatcher>(
    d: &D,
    handle: SniSslHandle,
    name: Option<&[u8]>,
    without: SniReply,
    with: SniReply,
)
    requires
        call_ensures(sni_callback::<D>, (None, handle, name), without),
        call_ensures(sni_callback::<D>, (Some(d), handle, name), with),
    ensures
        without.code == 0 && without.alert is None,
        exists|action: SniAction, text: Option<&str>| #[trigger]
            call_ensures(D::dispatch, (d, handle, text), action) && with.code == (match action {
                SniAction::Proceed => 0int,
                SniAction::Abort(_) => 2,
            }) && with.alert == (match action {
                SniAction::Proceed => None,
                SniAction::Abort(alert) => Some(alert as i32),
            }),
{
    let (action, text) = choose|action: SniAction, text: Option<&str>| #[trigger]
        call_ensures(D::dispatch, (d, handle, text), action) && crate::context::opt_slice(text)
            == crate::sni::dispatched_name(crate::chain::opt_slice_bytes(name)) && with
            == action.reply();
    assert(call_ensures(D::dispatch, (d, handle, text), action));
}

} // verus!
