//! The one-shot auth exchange. A client opens the control connection and
//! sends, before any framing, one chunk holding a one-byte name length, the
//! tunnel name, and the ASCII form of the address it wants the server to
//! listen on, XOR-obfuscated under the tunnel key. The server takes the
//! chunk apart, finds the named tunnel, and deobfuscates the address.

use vstd::prelude::*;
use vstd::slice::slice_to_vec;

use crate::codec::{lemma_xor_involution, xor, xor_seq};
use crate::config::{first_tunnel_match, ServerConfig};

verus! {

/// Why an auth exchange was rejected. Rejection closes the control
/// connection without a response frame.
#[derive(PartialEq, Eq, Structural, Debug, Clone, Copy)]
pub enum AuthError {
    /// The raw stream closed or yielded no bytes.
    ShortRead,
    /// The name length byte was zero or named more bytes than were read.
    BadNameLength,
    /// No tunnel of the given name is configured.
    UnknownTunnel,
    /// The deobfuscated bytes did not parse as an address.
    BadAddress,
    /// The listening socket could not be bound at the requested address.
    BindFailed,
}

/// Whether an auth chunk is well formed: a non-zero name length whose name
/// fits inside the chunk.
pub open spec fn auth_well_formed(buf: Seq<u8>) -> bool {
    buf.len() >= 1 && buf[0] >= 1 && 1 + buf[0] <= buf.len()
}

/// The tunnel name inside a well-formed auth chunk.
pub open spec fn auth_name(buf: Seq<u8>) -> Seq<u8>
    recommends
        auth_well_formed(buf),
{
    buf.subrange(1, 1 + buf[0])
}

/// The obfuscated address bytes inside a well-formed auth chunk.
pub open spec fn auth_enc_addr(buf: Seq<u8>) -> Seq<u8>
    recommends
        auth_well_formed(buf),
{
    buf.skip(1 + buf[0])
}

/// An auth chunk taken apart: the tunnel name and the still-obfuscated
/// address bytes.
pub struct AuthRequest {
    /// The tunnel name the client asks for.
    pub name: Vec<u8>,
    /// The requested listen address, still XORed under the tunnel key.
    pub enc_addr: Vec<u8>,
}

/// Builds the auth chunk a client sends: the name length, the name, and the
/// address bytes obfuscated under the key.
pub fn build_auth(name: &[u8], addr_ascii: &[u8], key: &[u8]) -> (r: Vec<u8>)
    requires
        1 <= name@.len() <= 255,
        key@.len() >= 1,
    ensures
        r@ == seq![name@.len() as u8] + name@ + xor_seq(addr_ascii@, key@),
{
    let mut r: Vec<u8> = Vec::new();
    r.push(name.len() as u8);
    r.extend_from_slice(name);
    xor(addr_ascii, key, &mut r);
    proof {
        assert(r@ =~= seq![name@.len() as u8] + name@ + xor_seq(addr_ascii@, key@));
    }
    r
}

/// Takes an auth chunk apart. Fails exactly on an empty chunk, a name
/// length of zero, or a name length pointing past the end of the chunk.
pub fn parse_auth(buf: &[u8]) -> (r: Result<AuthRequest, AuthError>)
    ensures
        r is Ok <==> auth_well_formed(buf@),
        r matches Ok(a) ==> a.name@ == auth_name(buf@) && a.enc_addr@ == auth_enc_addr(buf@),
        buf@.len() == 0 ==> r == Err::<AuthRequest, AuthError>(AuthError::ShortRead),
        buf@.len() >= 1 && !auth_well_formed(buf@) ==> r == Err::<AuthRequest, AuthError>(
            AuthError::BadNameLength,
        ),
{
    if buf.len() == 0 {
        return Err(AuthError::ShortRead);
    }
    let name_len: u8 = buf[0];
    if name_len == 0 {
        return Err(AuthError::BadNameLength);
    }
    if 1 + name_len as usize > buf.len() {
        return Err(AuthError::BadNameLength);
    }
    let name: Vec<u8> = vstd::slice::slice_to_vec(
        vstd::slice::slice_subrange(buf, 1, 1 + name_len as usize),
    );
    let enc_addr: Vec<u8> = vstd::slice::slice_to_vec(
        vstd::slice::slice_subrange(buf, 1 + name_len as usize, buf.len()),
    );
    proof {
        assert(name@ =~= auth_name(buf@));
        assert(enc_addr@ =~= auth_enc_addr(buf@));
    }
    Ok(AuthRequest { name, enc_addr })
}

/// Deobfuscates the address bytes of an auth chunk under a tunnel key.
pub fn decode_auth_addr(enc_addr: &[u8], key: &[u8]) -> (r: Vec<u8>)
    requires
        key@.len() >= 1,
    ensures
        r@ == xor_seq(enc_addr@, key@),
{
    let mut r: Vec<u8> = Vec::new();
    xor(enc_addr, key, &mut r);
    r
}

/// What a successful auth exchange grants: the matched tunnel's key and
/// the deobfuscated address the server should listen on, as ASCII bytes.
pub struct AuthGrant {
    /// The name of the matched tunnel.
    pub name: Vec<u8>,
    /// The key of the matched tunnel; all further framing uses it.
    pub key: Vec<u8>,
    /// The requested listen address, deobfuscated but not yet parsed.
    pub listen_addr: Vec<u8>,
}

/// The server's half of the auth exchange, short of the socket work: takes
/// the auth chunk apart, finds the named tunnel in the configuration, and
/// deobfuscates the requested listen address under that tunnel's key.
/// Parsing the address and binding the listener remain with the caller, as
/// does mapping their failures to [`AuthError::BadAddress`] and
/// [`AuthError::BindFailed`].
pub fn server_auth(conf: &ServerConfig, buf: &[u8]) -> (r: Result<AuthGrant, AuthError>)
    requires
        conf.wf(),
    ensures
        r is Ok <==> auth_well_formed(buf@) && (exists|i: int|
            0 <= i < conf.tunnel@.len() && #[trigger] conf.tunnel@[i].0@ == auth_name(buf@)),
        buf@.len() == 0 ==> r == Err::<AuthGrant, AuthError>(AuthError::ShortRead),
        buf@.len() >= 1 && !auth_well_formed(buf@) ==> r == Err::<AuthGrant, AuthError>(
            AuthError::BadNameLength,
        ),
        auth_well_formed(buf@) && r is Err ==> r == Err::<AuthGrant, AuthError>(
            AuthError::UnknownTunnel,
        ),
        r matches Ok(g) ==> g.name@ == auth_name(buf@) && (exists|i: int|
            {
                &&& #[trigger] first_tunnel_match(conf.tunnel@, auth_name(buf@), i)
                &&& g.key@ == conf.tunnel@[i].1.key@
                &&& g.listen_addr@ == xor_seq(auth_enc_addr(buf@), conf.tunnel@[i].1.key@)
            }),
{
    let req = match parse_auth(buf) {
        Ok(r) => r,
        Err(e) => {
            return Err(e);
        },
    };
    let t = match conf.find_tunnel(req.name.as_slice()) {
        Some(t) => t,
        None => {
            return Err(AuthError::UnknownTunnel);
        },
    };
    let key: Vec<u8> = slice_to_vec(t.key.as_slice());
    proof {
        let i = choose|i: int|
            first_tunnel_match(conf.tunnel@, req.name@, i) && t.key@ == conf.tunnel@[i].1.key@;
        assert(conf.tunnel@[i].1.key@.len() >= 1);
    }
    let listen_addr = decode_auth_addr(req.enc_addr.as_slice(), key.as_slice());
    Ok(AuthGrant { name: req.name, key, listen_addr })
}

/// Auth round-trip: a chunk built from a name and an address is well
/// formed, parses back to the same name, and deobfuscating its address
/// bytes under the same key yields the address again.
pub proof fn lemma_auth_round_trip(name: Seq<u8>, addr: Seq<u8>, key: Seq<u8>)
    requires
        1 <= name.len() <= 255,
        key.len() >= 1,
    ensures
        auth_well_formed(seq![name.len() as u8] + name + xor_seq(addr, key)),
        auth_name(seq![name.len() as u8] + name + xor_seq(addr, key)) == name,
        xor_seq(auth_enc_addr(seq![name.len() as u8] + name + xor_seq(addr, key)), key) == addr,
{
    let built = seq![name.len() as u8] + name + xor_seq(addr, key);
    assert(built[0] == name.len() as u8);
    assert(auth_name(built) =~= name);
    assert(auth_enc_addr(built) =~= xor_seq(addr, key));
    lemma_xor_involution(addr, key);
}

} // verus!
