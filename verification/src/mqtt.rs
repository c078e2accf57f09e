//! The address-change announcement: the message a notifier publishes when
//! the public address moves, and its wire encodings.
//!
//! The crate builds the topic and the payload bytes; handing them to a
//! broker is the caller's business, and a failure there never affects
//! reconciliation.

use vstd::prelude::*;

use crate::addr::Address;
use crate::addr::addr_chars;

verus! {

/// An announced address change: the address left behind and the one now
/// current.
#[derive(Clone, Copy, Debug, PartialEq, Eq, Structural)]
pub struct IpChangeMessage {
    pub old_addr: Address,
    pub new_addr: Address,
}

/// The bytes could not be read back as an address-change message.
#[derive(Clone, Copy, Debug, PartialEq, Eq, Structural)]
pub struct IpChangeDecodeError;

/// The topic an address change is published on under a base topic.
pub open spec fn spec_ip_change_topic(base: Seq<char>) -> Seq<char> {
    base + "/ipchange"@
}

/// Builds the publish topic for address changes under `base_topic`.
pub fn ip_change_topic(base_topic: &str) -> (r: String)
    ensures
        r@ == spec_ip_change_topic(base_topic@),
{
    let mut s = String::from_str(base_topic);
    s.append("/ipchange");
    s
}

/// The JSON text of an address-change message: both addresses in dotted
/// decimal, old first.
pub open spec fn spec_ip_change_json(m: IpChangeMessage) -> Seq<char> {
    "{\"old\":\""@ + addr_chars(m.old_addr) + "\",\"new\":\""@ + addr_chars(m.new_addr) + "\"}"@
}

/// The compact binary form of an address-change message: the old
/// address's four octets, then the new one's.
pub open spec fn spec_ip_change_bytes(m: IpChangeMessage) -> Seq<u8> {
    seq![
        m.old_addr.o1,
        m.old_addr.o2,
        m.old_addr.o3,
        m.old_addr.o4,
        m.new_addr.o1,
        m.new_addr.o2,
        m.new_addr.o3,
        m.new_addr.o4,
    ]
}

/// The message eight bytes decode to: nothing unless there are exactly
/// eight.
pub open spec fn spec_ip_change_decoded(b: Seq<u8>) -> Option<IpChangeMessage> {
    if b.len() == 8 {
        Option::Some(
            IpChangeMessage {
                old_addr: Address { o1: b[0], o2: b[1], o3: b[2], o4: b[3] },
                new_addr: Address { o1: b[4], o2: b[5], o3: b[6], o4: b[7] },
            },
        )
    } else {
        Option::None
    }
}

impl IpChangeMessage {
    /// The JSON payload announcing this change.
    pub fn to_json_string(&self) -> (r: String)
        ensures
            r@ == spec_ip_change_json(*self),
    {
        let mut s = String::from_str("{\"old\":\"");
        let old_text = self.old_addr.to_ipv4_string();
        s.append(old_text.as_str());
        s.append("\",\"new\":\"");
        let new_text = self.new_addr.to_ipv4_string();
        s.append(new_text.as_str());
        s.append("\"}");
        s
    }

    /// The compact binary payload announcing this change.
    pub fn to_bytes(&self) -> (r: Vec<u8>)
        ensures
            r@ == spec_ip_change_bytes(*self),
    {
        let mut v: Vec<u8> = Vec::new();
        v.push(self.old_addr.o1);
        v.push(self.old_addr.o2);
        v.push(self.old_addr.o3);
        v.push(self.old_addr.o4);
        v.push(self.new_addr.o1);
        v.push(self.new_addr.o2);
        v.push(self.new_addr.o3);
        v.push(self.new_addr.o4);
        proof {
            assert(v@ =~= spec_ip_change_bytes(*self));
        }
        v
    }

    /// Reads a compact binary payload back; exactly eight bytes are
    /// accepted.
    pub fn try_from_bytes(b: &[u8]) -> (r: Result<IpChangeMessage, IpChangeDecodeError>)
        ensures
            r matches Ok(m) ==> spec_ip_change_decoded(b@) == Option::Some(m),
            r is Err <==> spec_ip_change_decoded(b@) is None,
    {
        if b.len() != 8 {
            return Err(IpChangeDecodeError);
        }
        let m = IpChangeMessage {
            old_addr: Address {
                o1: *vstd::slice::slice_index_get(b, 0),
                o2: *vstd::slice::slice_index_get(b, 1),
                o3: *vstd::slice::slice_index_get(b, 2),
                o4: *vstd::slice::slice_index_get(b, 3),
            },
            new_addr: Address {
                o1: *vstd::slice::slice_index_get(b, 4),
                o2: *vstd::slice::slice_index_get(b, 5),
                o3: *vstd::slice::slice_index_get(b, 6),
                o4: *vstd::slice::slice_index_get(b, 7),
            },
        };
        Ok(m)
    }
}

/// Encoding an address change and decoding the bytes gives the message
/// back.
pub proof fn lemma_ip_change_bytes_round_trip(m: IpChangeMessage)
    ensures
        spec_ip_change_decoded(spec_ip_change_bytes(m)) == Option::Some(m),
{
}

} // verus!
