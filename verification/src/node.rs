//! Nodes: the relay and receiver packet-processing pipelines and the
//! sender-side path encryption that wraps a payload in nested layers.
use std::collections::HashMap;

use vstd::prelude::*;

use crate::bytes::{append_bytes, bytes_eq, copy_bytes, subvec, vecs_view};
use crate::onion_header::{oh_bytes, oh_parse, OnionHeader, OnionHeaderModel};
use crate::onion_layer::{aes256_gcm_seal, decrypt_spec, layer_plain, OnionLayer};
use crate::srh::{
    srh_advance, srh_bytes, srh_current, srh_new_ok, srh_new_spec, srh_parse, SRv6Header,
};
use crate::{Error, PROTOCOL_VERSION};

verus! {

broadcast use vstd::std_specs::hash::group_hash_axioms;

/// A node's role: sender, relay owning a local segment identifier, or
/// receiver.
pub enum NodeType {
    Sender,
    Relay(Vec<u8>),
    Receiver,
}

/// Model of a node's role; a relay carries its 16-byte local segment
/// identifier.
pub ghost enum NodeTypeModel {
    Sender,
    Relay(Seq<u8>),
    Receiver,
}

impl View for NodeType {
    type V = NodeTypeModel;

    open spec fn view(&self) -> NodeTypeModel {
        match self {
            NodeType::Sender => NodeTypeModel::Sender,
            NodeType::Relay(sid) => NodeTypeModel::Relay(sid@),
            NodeType::Receiver => NodeTypeModel::Receiver,
        }
    }
}

/// Model of a node: its role and its per-session key material.
pub ghost struct NodeModel {
    pub node_type: NodeTypeModel,
    pub session_keys: Map<u32, Seq<u8>>,
    pub mac_keys: Map<u32, Seq<u8>>,
}

/// An identity-bearing actor holding per-session encryption and MAC keys.
pub struct Node {
    pub node_type: NodeType,
    session_keys: HashMap<u32, Vec<u8>>,
    mac_keys: HashMap<u32, Vec<u8>>,
}

impl View for Node {
    type V = NodeModel;

    closed spec fn view(&self) -> NodeModel {
        NodeModel {
            node_type: self.node_type@,
            session_keys: self.session_keys@.map_values(|v: Vec<u8>| v@),
            mac_keys: self.mac_keys@.map_values(|v: Vec<u8>| v@),
        }
    }
}

/// What relay processing returns for a node and an incoming datagram: the
/// re-serialized packet and the decrypted next-hop descriptor, or the error
/// naming the step that refused the packet.
pub open spec fn relay_spec(node: NodeModel, packet: Seq<u8>) -> Result<(Seq<u8>, Seq<u8>), Error> {
    match srh_parse(packet) {
        None => Err(Error::ParseError),
        Some(srh) => match node.node_type {
            NodeTypeModel::Relay(local_sid) => match srh_current(srh) {
                None => Err(Error::ProtocolError),
                Some(current) => if current != local_sid {
                    Err(Error::ProtocolError)
                } else {
                    let off = 8 + 16 * srh.segment_list.len() as int;
                    match oh_parse(packet.skip(off)) {
                        None => Err(Error::ParseError),
                        Some(oh) => if oh.version != PROTOCOL_VERSION {
                            Err(Error::ProtocolError)
                        } else if !node.session_keys.contains_key(oh.session_id) {
                            Err(Error::ProtocolError)
                        } else if !node.mac_keys.contains_key(oh.session_id) {
                            Err(Error::ProtocolError)
                        } else {
                            match decrypt_spec(
                                packet.skip(off + 52),
                                node.session_keys[oh.session_id],
                                layer_nonce(oh.nonce, srh.last_entry - srh.segments_left),
                            ) {
                                Err(e) => Err(e),
                                Ok(nhpl) => Ok(
                                    (srh_bytes(srh_advance(srh)) + oh_bytes(oh) + nhpl.1, nhpl.0),
                                ),
                            }
                        },
                    }
                },
            },
            _ => Err(Error::ProtocolError),
        },
    }
}

/// What receiver processing returns for a node and an incoming datagram: the
/// innermost payload, or the error naming the step that refused the packet.
pub open spec fn receiver_spec(node: NodeModel, packet: Seq<u8>) -> Result<Seq<u8>, Error> {
    match srh_parse(packet) {
        None => Err(Error::ParseError),
        Some(srh) => {
            let off = 8 + 16 * srh.segment_list.len() as int;
            match oh_parse(packet.skip(off)) {
                None => Err(Error::ParseError),
                Some(oh) => if oh.version != PROTOCOL_VERSION {
                    Err(Error::ProtocolError)
                } else if !node.session_keys.contains_key(oh.session_id) {
                    Err(Error::ProtocolError)
                } else {
                    match decrypt_spec(
                        packet.skip(off + 52),
                        node.session_keys[oh.session_id],
                        oh.nonce,
                    ) {
                        Err(e) => Err(e),
                        Ok(nhpl) => Ok(nhpl.1),
                    }
                },
            }
        },
    }
}

/// Law: a relay handed a syntactically valid packet for a session it holds
/// no key for refuses it with the protocol error; processing borrows the
/// node immutably, so no state changes.
pub proof fn lemma_relay_unknown_session_drop(node: NodeModel, packet: Seq<u8>, local_sid: Seq<u8>)
    requires
        node.node_type == NodeTypeModel::Relay(local_sid),
        srh_parse(packet) is Some,
        srh_current(srh_parse(packet).unwrap()) == Some(local_sid),
        oh_parse(packet.skip(8 + 16 * srh_parse(packet).unwrap().segment_list.len() as int))
            matches Some(oh) && !node.session_keys.contains_key(oh.session_id),
    ensures
        relay_spec(node, packet) == Err::<(Seq<u8>, Seq<u8>), Error>(Error::ProtocolError),
{
}

/// Law: a receiver handed a syntactically valid packet for a session it
/// holds no key for refuses it with the protocol error; processing borrows
/// the node immutably, so no state changes.
pub proof fn lemma_receiver_unknown_session_drop(node: NodeModel, packet: Seq<u8>)
    requires
        srh_parse(packet) is Some,
        oh_parse(packet.skip(8 + 16 * srh_parse(packet).unwrap().segment_list.len() as int))
            matches Some(oh) && !node.session_keys.contains_key(oh.session_id),
    ensures
        receiver_spec(node, packet) == Err::<Seq<u8>, Error>(Error::ProtocolError),
{
}

impl Node {
    /// A node with the given role and no provisioned keys.
    pub fn new(node_type: NodeType) -> (r: Node)
        ensures
            r@.node_type == node_type@,
            r@.session_keys == Map::<u32, Seq<u8>>::empty(),
            r@.mac_keys == Map::<u32, Seq<u8>>::empty(),
    {
        let r = Node {
            node_type,
            session_keys: HashMap::new(),
            mac_keys: HashMap::new(),
        };
        proof {
            assert(r@.session_keys =~= Map::<u32, Seq<u8>>::empty());
            assert(r@.mac_keys =~= Map::<u32, Seq<u8>>::empty());
        }
        r
    }

    /// Provisions the encryption key for a session.
    pub fn set_session_key(&mut self, session_id: u32, key: Vec<u8>)
        ensures
            final(self)@.session_keys == old(self)@.session_keys.insert(session_id, key@),
            final(self)@.mac_keys == old(self)@.mac_keys,
            final(self)@.node_type == old(self)@.node_type,
    {
        let ghost m0: Map<u32, Seq<u8>> = self@.session_keys;
        self.session_keys.insert(session_id, key);
        proof {
            assert(self@.session_keys =~= m0.insert(session_id, key@));
        }
    }

    /// Provisions the MAC key for a session.
    pub fn set_mac_key(&mut self, session_id: u32, key: Vec<u8>)
        ensures
            final(self)@.mac_keys == old(self)@.mac_keys.insert(session_id, key@),
            final(self)@.session_keys == old(self)@.session_keys,
            final(self)@.node_type == old(self)@.node_type,
    {
        let ghost m0: Map<u32, Seq<u8>> = self@.mac_keys;
        self.mac_keys.insert(session_id, key);
        proof {
            assert(self@.mac_keys =~= m0.insert(session_id, key@));
        }
    }

    /// Relay processing: parse the routing header, require ownership of the
    /// current segment, parse the onion header, require the supported
    /// protocol version, resolve the session keys,
    /// open one layer, advance the pointer, and re-serialize. The layer is
    /// opened under the header's nonce diversified by this hop's index, the
    /// same per-layer scheme the sender applies. Returns the forwardable
    /// packet and the next-hop descriptor, exactly as `relay_spec`
    /// describes; the descriptor's interpretation as a network address
    /// belongs to the transport layer outside.
    pub fn process_relay_packet(&self, packet: &Vec<u8>) -> (r: Result<(Vec<u8>, Vec<u8>), Error>)
        ensures
            match relay_spec(self@, packet@) {
                Ok(pn) => r matches Ok(x) && x.0@ == pn.0 && x.1@ == pn.1,
                Err(e) => r == Err::<(Vec<u8>, Vec<u8>), Error>(e),
            },
    {
        let mut srh = match SRv6Header::from_bytes(packet) {
            Ok(h) => h,
            Err(e) => {
                return Err(e);
            },
        };
        let local_sid = match &self.node_type {
            NodeType::Relay(sid) => sid,
            _ => {
                return Err(Error::ProtocolError);
            },
        };
        let current = match srh.get_current_sid() {
            Some(c) => c,
            None => {
                return Err(Error::ProtocolError);
            },
        };
        if !bytes_eq(&current, local_sid) {
            return Err(Error::ProtocolError);
        }
        let srh_size = srh.wire_len();
        let ghost off = 8 + 16 * srh@.segment_list.len() as int;
        let rest = subvec(packet, srh_size, packet.len());
        assert(rest@ =~= packet@.skip(off));
        let onion = match OnionHeader::from_bytes(&rest) {
            Ok(h) => h,
            Err(e) => {
                return Err(e);
            },
        };
        if onion.version != PROTOCOL_VERSION {
            return Err(Error::ProtocolError);
        }
        let session_key = match self.session_keys.get(&onion.session_id) {
            Some(k) => k,
            None => {
                proof {
                    assert(!self@.session_keys.contains_key(onion@.session_id));
                }
                return Err(Error::ProtocolError);
            },
        };
        proof {
            assert(self@.session_keys.contains_key(onion@.session_id));
            assert(self@.session_keys[onion@.session_id] == session_key@);
        }
        if !self.mac_keys.contains_key(&onion.session_id) {
            proof {
                assert(!self@.mac_keys.contains_key(onion@.session_id));
            }
            return Err(Error::ProtocolError);
        }
        proof {
            assert(self@.mac_keys.contains_key(onion@.session_id));
        }
        let ciphertext = subvec(&rest, 52, rest.len());
        assert(ciphertext@ =~= packet@.skip(off + 52));
        let hop_index = srh.last_entry - srh.segments_left;
        let hop_nonce = nonce_for_layer(&onion.nonce, hop_index);
        let layer = match OnionLayer::decrypt(&ciphertext, session_key, &hop_nonce) {
            Ok(l) => l,
            Err(e) => {
                return Err(e);
            },
        };
        srh.advance_segment();
        let mut out = srh.to_bytes();
        let onion_bytes = onion.to_bytes();
        append_bytes(&mut out, &onion_bytes);
        append_bytes(&mut out, &layer.payload);
        Ok((out, layer.next_hop))
    }

    /// Receiver processing: the same parse, version, key-resolution and
    /// decrypt steps as a relay, without segment ownership, surfacing the
    /// inner payload, exactly as `receiver_spec` describes.
    pub fn process_receiver_packet(&self, packet: &Vec<u8>) -> (r: Result<Vec<u8>, Error>)
        ensures
            match receiver_spec(self@, packet@) {
                Ok(p) => r matches Ok(pv) && pv@ == p,
                Err(e) => r == Err::<Vec<u8>, Error>(e),
            },
    {
        let srh = match SRv6Header::from_bytes(packet) {
            Ok(h) => h,
            Err(e) => {
                return Err(e);
            },
        };
        let srh_size = srh.wire_len();
        let ghost off = 8 + 16 * srh@.segment_list.len() as int;
        let rest = subvec(packet, srh_size, packet.len());
        assert(rest@ =~= packet@.skip(off));
        let onion = match OnionHeader::from_bytes(&rest) {
            Ok(h) => h,
            Err(e) => {
                return Err(e);
            },
        };
        if onion.version != PROTOCOL_VERSION {
            return Err(Error::ProtocolError);
        }
        let session_key = match self.session_keys.get(&onion.session_id) {
            Some(k) => k,
            None => {
                proof {
                    assert(!self@.session_keys.contains_key(onion@.session_id));
                }
                return Err(Error::ProtocolError);
            },
        };
        proof {
            assert(self@.session_keys.contains_key(onion@.session_id));
            assert(self@.session_keys[onion@.session_id] == session_key@);
        }
        let ciphertext = subvec(&rest, 52, rest.len());
        assert(ciphertext@ =~= packet@.skip(off + 52));
        let layer = match OnionLayer::decrypt(&ciphertext, session_key, &onion.nonce) {
            Ok(l) => l,
            Err(e) => {
                return Err(e);
            },
        };
        Ok(layer.payload)
    }
}

/// The sentinel next-hop descriptor of the terminal layer, the ASCII bytes
/// of `final_destination`.
pub open spec fn sentinel_descriptor() -> Seq<u8> {
    seq![
        0x66u8, 0x69u8, 0x6eu8, 0x61u8, 0x6cu8, 0x5fu8, 0x64u8, 0x65u8, 0x73u8, 0x74u8,
        0x69u8, 0x6eu8, 0x61u8, 0x74u8, 0x69u8, 0x6fu8, 0x6eu8,
    ]
}

/// The sentinel next-hop descriptor as bytes.
pub fn sentinel_descriptor_bytes() -> (r: Vec<u8>)
    ensures
        r@ == sentinel_descriptor(),
{
    let mut r: Vec<u8> = Vec::new();
    r.push(0x66u8);
    r.push(0x69u8);
    r.push(0x6eu8);
    r.push(0x61u8);
    r.push(0x6cu8);
    r.push(0x5fu8);
    r.push(0x64u8);
    r.push(0x65u8);
    r.push(0x73u8);
    r.push(0x74u8);
    r.push(0x69u8);
    r.push(0x6eu8);
    r.push(0x61u8);
    r.push(0x74u8);
    r.push(0x69u8);
    r.push(0x6fu8);
    r.push(0x6eu8);
    assert(r@ =~= sentinel_descriptor());
    r
}

/// The nonce of layer `j`: the base nonce with its first byte overwritten by
/// the hop index.
pub open spec fn layer_nonce(base: Seq<u8>, j: int) -> Seq<u8> {
    base.update(0, j as u8)
}

fn nonce_for_layer(base: &Vec<u8>, j: u8) -> (r: Vec<u8>)
    requires
        base@.len() == 12,
    ensures
        r@ == layer_nonce(base@, j as int),
{
    let mut r: Vec<u8> = Vec::new();
    r.push(j);
    let mut t: usize = 1;
    while t < 12
        invariant
            1 <= t <= 12,
            base@.len() == 12,
            r@.len() == t,
            r@[0] == j,
            forall|k: int| 1 <= k < t ==> r@[k] == base@[k],
        decreases 12 - t,
    {
        r.push(base[t]);
        t = t + 1;
    }
    assert(r@ =~= layer_nonce(base@, j as int));
    r
}

/// The descriptor wrapped into layer `j` of an `n`-hop path: the sentinel at
/// the terminal hop, else the descriptor of hop `j + 1`.
pub open spec fn hop_descriptor(descrs: Seq<Seq<u8>>, n: int, j: int) -> Seq<u8> {
    if j == n - 1 {
        sentinel_descriptor()
    } else {
        descrs[j + 1]
    }
}

/// The accumulated ciphertext after wrapping layers `n - 1` down to `j`
/// around the message: each layer seals its descriptor and the layer inside
/// it under its key and per-layer nonce.
pub open spec fn wrapped_payload(
    keys: Seq<Seq<u8>>,
    descrs: Seq<Seq<u8>>,
    base: Seq<u8>,
    msg: Seq<u8>,
    n: int,
    j: int,
) -> Seq<u8>
    decreases n - j,
{
    if j >= n {
        msg
    } else {
        aes256_gcm_seal(
            keys[j],
            layer_nonce(base, j),
            layer_plain(hop_descriptor(descrs, n, j), wrapped_payload(keys, descrs, base, msg, n, j + 1)),
        )
    }
}

/// The inputs sender path construction accepts: as many keys as hops, a path
/// a routing header can carry, descriptors for every node plus the receiver,
/// and full-size AEAD keys.
pub open spec fn build_ok(path: Seq<Seq<u8>>, descrs: Seq<Seq<u8>>, keys: Seq<Seq<u8>>) -> bool {
    &&& path.len() == keys.len()
    &&& srh_new_ok(path)
    &&& descrs.len() == path.len() + 1
    &&& forall|j: int| 0 <= j < keys.len() ==> (#[trigger] keys[j]).len() == 32
}

/// The complete packet the sender emits: routing header for the path, onion
/// header carrying the outermost layer's nonce and a zero placeholder tag,
/// then the fully wrapped ciphertext.
pub open spec fn built_packet(
    session_id: u32,
    path: Seq<Seq<u8>>,
    descrs: Seq<Seq<u8>>,
    keys: Seq<Seq<u8>>,
    msg: Seq<u8>,
    base: Seq<u8>,
) -> Seq<u8> {
    srh_bytes(srh_new_spec(path)) + oh_bytes(
        OnionHeaderModel {
            version: PROTOCOL_VERSION,
            session_id,
            nonce: layer_nonce(base, 0),
            mac: Seq::new(32, |i: int| 0u8),
        },
    ) + wrapped_payload(keys, descrs, base, msg, path.len() as int, 0)
}

/// What sender path construction returns: the packet, or the error for the
/// first failed validation — a path/key count mismatch is refused before any
/// cryptographic work.
pub open spec fn build_spec(
    session_id: u32,
    path: Seq<Seq<u8>>,
    descrs: Seq<Seq<u8>>,
    keys: Seq<Seq<u8>>,
    msg: Seq<u8>,
    base: Seq<u8>,
) -> Result<Seq<u8>, Error> {
    if path.len() != keys.len() {
        Err(Error::ProtocolError)
    } else if !srh_new_ok(path) {
        Err(Error::ProtocolError)
    } else if descrs.len() != path.len() + 1 {
        Err(Error::ProtocolError)
    } else if exists|j: int| 0 <= j < keys.len() && (#[trigger] keys[j]).len() != 32 {
        Err(Error::CryptoError)
    } else {
        Ok(built_packet(session_id, path, descrs, keys, msg, base))
    }
}

/// Relies on `rand::fill` (the thread-local generator): 12 fresh random
/// bytes. Nothing is assumed about their values.
#[verifier::external_body]
fn fresh_nonce_base() -> (r: Vec<u8>)
    ensures
        r@.len() == 12,
{
    let mut n = [0u8; 12];
    rand::fill(&mut n[..]);
    n.to_vec()
}

impl Node {
    /// Sender path construction with an explicit nonce base: validates the
    /// inputs, wraps the message from the innermost hop outward, and builds
    /// the packet, exactly as `build_spec` describes. On success the layers
    /// peel: for every hop `j`, decrypting layer `j` under key `j` and the
    /// per-layer nonce yields hop `j`'s descriptor and the layer inside it,
    /// down to the message itself.
    #[verifier::loop_isolation(false)]
    pub fn build_message_packet(
        session_id: u32,
        path: Vec<Vec<u8>>,
        node_descriptors: &Vec<Vec<u8>>,
        keys: &Vec<Vec<u8>>,
        message: &Vec<u8>,
        nonce_base: &Vec<u8>,
    ) -> (r: Result<Vec<u8>, Error>)
        requires
            nonce_base@.len() == 12,
            message@.len() <= 0x1000_0000,
            forall|j: int|
                0 <= j < node_descriptors@.len() ==> (#[trigger] node_descriptors@[j]@).len()
                    <= 0xffff,
        ensures
            match build_spec(
                session_id,
                vecs_view(path),
                vecs_view(*node_descriptors),
                vecs_view(*keys),
                message@,
                nonce_base@,
            ) {
                Ok(p) => r matches Ok(pv) && pv@ == p,
                Err(e) => r == Err::<Vec<u8>, Error>(e),
            },
            r is Ok ==> forall|j: int|
                0 <= j < vecs_view(path).len() ==> #[trigger] decrypt_spec(
                    wrapped_payload(
                        vecs_view(*keys),
                        vecs_view(*node_descriptors),
                        nonce_base@,
                        message@,
                        vecs_view(path).len() as int,
                        j,
                    ),
                    vecs_view(*keys)[j],
                    layer_nonce(nonce_base@, j),
                ) == Ok::<(Seq<u8>, Seq<u8>), Error>(
                    (
                        hop_descriptor(vecs_view(*node_descriptors), vecs_view(path).len() as int, j),
                        wrapped_payload(
                            vecs_view(*keys),
                            vecs_view(*node_descriptors),
                            nonce_base@,
                            message@,
                            vecs_view(path).len() as int,
                            j + 1,
                        ),
                    ),
                ),
    {
        let ghost pathv: Seq<Seq<u8>> = vecs_view(path);
        let ghost descrsv: Seq<Seq<u8>> = vecs_view(*node_descriptors);
        let ghost keysv: Seq<Seq<u8>> = vecs_view(*keys);
        let n = path.len();
        if n != keys.len() {
            return Err(Error::ProtocolError);
        }
        if n == 0 || n > 127 {
            return Err(Error::ProtocolError);
        }
        let mut i: usize = 0;
        while i < n
            invariant
                i <= n,
                n == path@.len(),
                pathv == vecs_view(path),
                forall|j: int| 0 <= j < i ==> (#[trigger] pathv[j]).len() == 16,
            decreases n - i,
        {
            if path[i].len() != 16 {
                proof {
                    assert((pathv[i as int]).len() != 16);
                }
                return Err(Error::ProtocolError);
            }
            i = i + 1;
        }
        if node_descriptors.len() != n + 1 {
            return Err(Error::ProtocolError);
        }
        let mut i: usize = 0;
        while i < n
            invariant
                i <= n,
                n == keys@.len(),
                keysv == vecs_view(*keys),
                forall|j: int| 0 <= j < i ==> (#[trigger] keysv[j]).len() == 32,
            decreases n - i,
        {
            if keys[i].len() != 32 {
                proof {
                    assert((keysv[i as int]).len() != 32);
                }
                return Err(Error::CryptoError);
            }
            i = i + 1;
        }
        let mut current: Vec<u8> = Vec::new();
        append_bytes(&mut current, message);
        assert(current@ =~= message@);
        let mut j = n;
        while j > 0
            invariant
                j <= n,
                1 <= n <= 127,
                n == path@.len() && n == keys@.len() && node_descriptors@.len() == n + 1,
                pathv == vecs_view(path) && descrsv == vecs_view(*node_descriptors) && keysv
                    == vecs_view(*keys),
                nonce_base@.len() == 12,
                message@.len() <= 0x1000_0000,
                forall|k: int| 0 <= k < n + 1 ==> (#[trigger] descrsv[k]).len() <= 0xffff,
                forall|k: int| 0 <= k < n ==> (#[trigger] keysv[k]).len() == 32,
                current@ == wrapped_payload(keysv, descrsv, nonce_base@, message@, n as int, j as int),
                current@.len() <= message@.len() + (n - j) * 0x10011,
                forall|k: int|
                    j <= k < n ==> #[trigger] decrypt_spec(
                        wrapped_payload(keysv, descrsv, nonce_base@, message@, n as int, k),
                        keysv[k],
                        layer_nonce(nonce_base@, k),
                    ) == Ok::<(Seq<u8>, Seq<u8>), Error>(
                        (
                            hop_descriptor(descrsv, n as int, k),
                            wrapped_payload(keysv, descrsv, nonce_base@, message@, n as int, k + 1),
                        ),
                    ),
            decreases j,
        {
            j = j - 1;
            let nonce = nonce_for_layer(nonce_base, j as u8);
            let descr: Vec<u8> = if j == n - 1 {
                sentinel_descriptor_bytes()
            } else {
                copy_bytes(&node_descriptors[j + 1])
            };
            assert(descr@ == hop_descriptor(descrsv, n as int, j as int));
            assert(descr@.len() <= 0xffff);
            let layer = OnionLayer::new(descr, current);
            assert(keys@[j as int]@ == keysv[j as int] && keysv[j as int].len() == 32);
            assert(nonce@.len() == 12);
            assert(layer.next_hop@.len() <= 0xffff);
            current = match layer.encrypt(&keys[j], &nonce) {
                Ok(c) => c,
                Err(e) => {
                    return Err(e);
                },
            };
            proof {
                assert(decrypt_spec(
                    wrapped_payload(keysv, descrsv, nonce_base@, message@, n as int, j as int),
                    keysv[j as int],
                    layer_nonce(nonce_base@, j as int),
                ) == Ok::<(Seq<u8>, Seq<u8>), Error>(
                    (
                        hop_descriptor(descrsv, n as int, j as int),
                        wrapped_payload(keysv, descrsv, nonce_base@, message@, n as int, j as int + 1),
                    ),
                ));
            }
        }
        let header_nonce = nonce_for_layer(nonce_base, 0);
        let onion_header = OnionHeader::new(session_id, header_nonce);
        let srh = match SRv6Header::new(path) {
            Ok(h) => h,
            Err(_) => {
                return Err(Error::ProtocolError);
            },
        };
        let mut packet = srh.to_bytes();
        let onion_bytes = onion_header.to_bytes();
        append_bytes(&mut packet, &onion_bytes);
        append_bytes(&mut packet, &current);
        assert(packet@ =~= built_packet(
            session_id,
            pathv,
            descrsv,
            keysv,
            message@,
            nonce_base@,
        ));
        Ok(packet)
    }

    /// Sender path construction as one step: draws a fresh random nonce base
    /// and builds the packet. Success depends only on the validated inputs,
    /// never on the nonce; a path/key count mismatch is refused with the
    /// protocol error before any cryptographic work, and no transport is
    /// touched here.
    pub fn send_message(
        session_id: u32,
        path: Vec<Vec<u8>>,
        node_descriptors: &Vec<Vec<u8>>,
        keys: &Vec<Vec<u8>>,
        message: &Vec<u8>,
    ) -> (r: Result<Vec<u8>, Error>)
        requires
            message@.len() <= 0x1000_0000,
            forall|j: int|
                0 <= j < node_descriptors@.len() ==> (#[trigger] node_descriptors@[j]@).len()
                    <= 0xffff,
        ensures
            match r {
                Ok(p) => exists|base: Seq<u8>|
                    base.len() == 12 && #[trigger] build_spec(
                        session_id,
                        vecs_view(path),
                        vecs_view(*node_descriptors),
                        vecs_view(*keys),
                        message@,
                        base,
                    ) == Ok::<Seq<u8>, Error>(p@),
                Err(e) => forall|base: Seq<u8>|
                    base.len() == 12 ==> #[trigger] build_spec(
                        session_id,
                        vecs_view(path),
                        vecs_view(*node_descriptors),
                        vecs_view(*keys),
                        message@,
                        base,
                    ) == Err::<Seq<u8>, Error>(e),
            },
            vecs_view(path).len() != vecs_view(*keys).len() ==> r == Err::<Vec<u8>, Error>(
                Error::ProtocolError,
            ),
    {
        let nonce_base = fresh_nonce_base();
        let r = Self::build_message_packet(
            session_id,
            path,
            node_descriptors,
            keys,
            message,
            &nonce_base,
        );
        r
    }
}

} // verus!
