//! The authorization rule of the HTTP server: requests from trusted
//! networks pass; any other request passes only with the configured API key.
//! Addresses and networks are held as their octets, most significant first.
use vstd::prelude::*;

use crate::text::{
    chars_of, is_prefix_of, split_at_char, split_spec, starts_with, str_equals, string_from_range,
    trim, trim_spec,
};

verus! {

/// An IP address as its octets: 4 for IPv4, 16 for IPv6.
pub struct IpBytes {
    pub v6: bool,
    pub octets: Vec<u8>,
}

/// A network of trusted clients: an address and the number of leading bits
/// that a member shares with it.
pub struct TrustedNet {
    pub addr: IpBytes,
    pub prefix: u8,
}

impl IpBytes {
    /// The octets fit the address family.
    pub open spec fn well_formed(&self) -> bool {
        self.octets@.len() == if self.v6 {
            16nat
        } else {
            4nat
        }
    }
}

impl TrustedNet {
    /// The address fits its family and the prefix fits the address.
    pub open spec fn well_formed(&self) -> bool {
        self.addr.well_formed() && self.prefix <= 8 * self.addr.octets@.len()
    }
}

/// Bit `k` of an address, counting from the most significant bit of its
/// first octet.
pub open spec fn ip_bit(octets: Seq<u8>, k: int) -> u8 {
    (octets[k / 8] >> ((7 - k % 8) as u8)) & 1u8
}

/// `ip` lies in the network `n`: both are of one family and `ip` agrees
/// with the network's address on its first `prefix` bits.
pub open spec fn net_contains(n: TrustedNet, ip: IpBytes) -> bool {
    &&& n.addr.v6 == ip.v6
    &&& n.addr.octets@.len() == ip.octets@.len()
    &&& n.prefix <= 8 * ip.octets@.len()
    &&& forall|k: int| 0 <= k < n.prefix ==> ip_bit(n.addr.octets@, k) == ip_bit(ip.octets@, k)
}

/// The address a request is judged by: the one its `X-Forwarded-For`
/// header names where that reads as an address, else its peer's.
pub open spec fn client_address(forwarded: Option<IpBytes>, peer: Option<IpBytes>) -> Option<
    IpBytes,
> {
    if forwarded is Some {
        forwarded
    } else {
        peer
    }
}

/// A request's address is trusted where some trusted network contains it.
pub open spec fn trusted_spec(
    forwarded: Option<IpBytes>,
    peer: Option<IpBytes>,
    nets: Seq<TrustedNet>,
) -> bool {
    match client_address(forwarded, peer) {
        Some(ip) => exists|i: int| 0 <= i < nets.len() && net_contains(#[trigger] nets[i], ip),
        None => false,
    }
}

impl TrustedNet {
    /// Whether the network contains `ip`.
    pub fn contains(&self, ip: &IpBytes) -> (r: bool)
        ensures
            r == net_contains(*self, *ip),
    {
        if self.addr.v6 != ip.v6 || self.addr.octets.len() != ip.octets.len() {
            return false;
        }
        let n: usize = ip.octets.len();
        if n <= 32 && self.prefix as usize > 8 * n {
            return false;
        }
        let a = &self.addr.octets;
        let b = &ip.octets;
        let mut k: usize = 0;
        while k < self.prefix as usize
            invariant
                k <= self.prefix,
                self.prefix <= 8 * n,
                n == a@.len(),
                n == b@.len(),
                a@ == self.addr.octets@,
                b@ == ip.octets@,
                forall|j: int| 0 <= j < k ==> ip_bit(a@, j) == ip_bit(b@, j),
            decreases self.prefix - k,
        {
            let shift: u8 = (7 - k % 8) as u8;
            let x: u8 = (a[k / 8] >> shift) & 1u8;
            let y: u8 = (b[k / 8] >> shift) & 1u8;
            assert(x == ip_bit(a@, k as int));
            assert(y == ip_bit(b@, k as int));
            if x != y {
                return false;
            }
            k += 1;
        }
        true
    }
}

/// Whether a request's address lies in a trusted network: the address is
/// the one `forwarded` holds, else `peer`; with neither, it is not trusted.
pub fn client_is_trusted(
    forwarded: Option<IpBytes>,
    peer: Option<IpBytes>,
    nets: &Vec<TrustedNet>,
) -> (r: bool)
    ensures
        r == trusted_spec(forwarded, peer, nets@),
{
    let ip = match forwarded {
        Some(ip) => ip,
        None => match peer {
            Some(ip) => ip,
            None => {
                return false;
            },
        },
    };
    let ghost chosen = client_address(forwarded, peer);
    assert(chosen == Some(ip));
    let mut i: usize = 0;
    while i < nets.len()
        invariant
            i <= nets@.len(),
            chosen == Some(ip),
            chosen == client_address(forwarded, peer),
            forall|j: int| 0 <= j < i ==> !net_contains(#[trigger] nets@[j], ip),
        decreases nets@.len() - i,
    {
        if nets[i].contains(&ip) {
            assert(net_contains(nets@[i as int], ip));
            return true;
        }
        i += 1;
    }
    false
}

/// Bit `8 * q + j` of two addresses is bit `7 - j` of their octet `q`.
proof fn lemma_octet_bit(a: Seq<u8>, b: Seq<u8>, q: int, j: int, shift: u8)
    requires
        0 <= q,
        0 <= j < 8,
        shift == 7 - j,
        ip_bit(a, 8 * q + j) == ip_bit(b, 8 * q + j),
    ensures
        (a[q] >> shift) & 1u8 == (b[q] >> shift) & 1u8,
{
    assert((8 * q + j) / 8 == q && (8 * q + j) % 8 == j) by (nonlinear_arith)
        requires
            0 <= j < 8,
            0 <= q,
    ;
}

/// A network with prefix 0 holds every address of its family.
pub proof fn law_zero_prefix_holds_family(n: TrustedNet, ip: IpBytes)
    requires
        n.well_formed(),
        ip.well_formed(),
        n.prefix == 0,
    ensures
        net_contains(n, ip) <==> n.addr.v6 == ip.v6,
{
}

/// A network whose prefix covers the whole address holds that address
/// alone.
pub proof fn law_full_prefix_holds_one_address(n: TrustedNet, ip: IpBytes)
    requires
        n.well_formed(),
        ip.well_formed(),
        n.prefix == 8 * n.addr.octets@.len(),
    ensures
        net_contains(n, ip) <==> (n.addr.v6 == ip.v6 && n.addr.octets@ == ip.octets@),
{
    let a = n.addr.octets@;
    let b = ip.octets@;
    if net_contains(n, ip) {
        assert forall|q: int| 0 <= q < a.len() implies a[q] == b[q] by {
            lemma_octet_from_bits(a, b, q);
        }
        assert(a =~= b);
    }
}

/// Two octets whose eight bits agree are equal.
proof fn lemma_octet_from_bits(a: Seq<u8>, b: Seq<u8>, q: int)
    requires
        0 <= q,
        forall|k: int| 8 * q <= k < 8 * q + 8 ==> ip_bit(a, k) == ip_bit(b, k),
    ensures
        a[q] == b[q],
{
    let x = a[q];
    let y = b[q];
    lemma_octet_bit(a, b, q, 0, 7);
    lemma_octet_bit(a, b, q, 1, 6);
    lemma_octet_bit(a, b, q, 2, 5);
    lemma_octet_bit(a, b, q, 3, 4);
    lemma_octet_bit(a, b, q, 4, 3);
    lemma_octet_bit(a, b, q, 5, 2);
    lemma_octet_bit(a, b, q, 6, 1);
    lemma_octet_bit(a, b, q, 7, 0);
    assert(x == y) by (bit_vector)
        requires
            (x >> 7u8) & 1u8 == (y >> 7u8) & 1u8,
            (x >> 6u8) & 1u8 == (y >> 6u8) & 1u8,
            (x >> 5u8) & 1u8 == (y >> 5u8) & 1u8,
            (x >> 4u8) & 1u8 == (y >> 4u8) & 1u8,
            (x >> 3u8) & 1u8 == (y >> 3u8) & 1u8,
            (x >> 2u8) & 1u8 == (y >> 2u8) & 1u8,
            (x >> 1u8) & 1u8 == (y >> 1u8) & 1u8,
            (x >> 0u8) & 1u8 == (y >> 0u8) & 1u8,
    ;
}

/// For every prefix length, of either family: an address of the network's
/// family that agrees with the network's address on its first `prefix`
/// bits lies in the network, and an address that lies in the network is of
/// its family and agrees with it on those bits.
pub proof fn law_contained_iff_leading_bits_agree(n: TrustedNet, ip: IpBytes)
    requires
        n.well_formed(),
        ip.well_formed(),
    ensures
        net_contains(n, ip) <==> (n.addr.v6 == ip.v6 && forall|k: int|
            0 <= k < n.prefix ==> #[trigger] ip_bit(n.addr.octets@, k) == ip_bit(ip.octets@, k)),
{
}

/// A network whose prefix is a whole number `q` of octets, such as
/// `10.0.0.0/8` or `fe80::/16`, holds exactly the addresses of its family
/// whose first `q` octets are its own.
pub proof fn law_octet_prefix_matches_leading_octets(n: TrustedNet, ip: IpBytes, q: int)
    requires
        n.well_formed(),
        ip.well_formed(),
        0 <= q,
        n.prefix == 8 * q,
    ensures
        net_contains(n, ip) <==> (n.addr.v6 == ip.v6 && n.addr.octets@.take(q)
            == ip.octets@.take(q)),
{
    let a = n.addr.octets@;
    let b = ip.octets@;
    if n.addr.v6 == ip.v6 {
        if net_contains(n, ip) {
            assert forall|r: int| 0 <= r < q implies a[r] == b[r] by {
                assert forall|k: int| 8 * r <= k < 8 * r + 8 implies ip_bit(a, k) == ip_bit(b, k)
                    by {
                    assert(k < n.prefix);
                }
                lemma_octet_from_bits(a, b, r);
            }
            assert(a.take(q) =~= b.take(q));
        }
        if a.take(q) == b.take(q) {
            assert forall|k: int| 0 <= k < n.prefix implies ip_bit(a, k) == ip_bit(b, k) by {
                assert(0 <= k / 8 < q) by (nonlinear_arith)
                    requires
                        0 <= k < 8 * q,
                ;
                assert(a.take(q)[k / 8] == b.take(q)[k / 8]);
            }
        }
    }
}

/// The client address text that an `X-Forwarded-For` header names: its
/// first comma-separated entry, trimmed.
pub open spec fn forwarded_client_spec(header: Seq<char>) -> Seq<char> {
    trim_spec(split_spec(header, ',')[0])
}

/// The token of an `Authorization` header of the form `Bearer <token>`.
pub open spec fn bearer_token_spec(header: Seq<char>) -> Option<Seq<char>> {
    if is_prefix_of("Bearer "@, header) {
        Some(header.skip(7))
    } else {
        None
    }
}

/// The API key a request presents: the `X-Api-Key` header where there is
/// one, otherwise the bearer token of the `Authorization` header.
pub open spec fn presented_key_spec(
    x_api_key: Option<Seq<char>>,
    authorization: Option<Seq<char>>,
) -> Option<Seq<char>> {
    match x_api_key {
        Some(k) => Some(k),
        None => match authorization {
            Some(a) => bearer_token_spec(a),
            None => None,
        },
    }
}

/// A request passes where its address is trusted, or where an API key is
/// configured and the request presents exactly that key.
pub open spec fn authorized_spec(
    ip_trusted: bool,
    presented: Option<Seq<char>>,
    api_key: Option<Seq<char>>,
) -> bool {
    ip_trusted || (api_key is Some && presented is Some && presented == api_key)
}

/// The client address text that an `X-Forwarded-For` header names.
pub fn forwarded_client(header: &str) -> (r: String)
    ensures
        r@ == forwarded_client_spec(header@),
{
    let parts = split_at_char(header, ',');
    assert(parts.deep_view()[0] == parts@[0]@);
    trim(parts[0].as_str())
}

/// The token of an `Authorization: Bearer <token>` header.
pub fn bearer_token(header: &str) -> (r: Option<String>)
    ensures
        r.deep_view() == bearer_token_spec(header@),
{
    if starts_with(header, "Bearer ") {
        proof {
            reveal_strlit("Bearer ");
        }
        let v = chars_of(header);
        Some(string_from_range(&v, 7, v.len()))
    } else {
        None
    }
}

/// The API key a request presents, from its `X-Api-Key` and
/// `Authorization` headers (each `None` where absent or not visible ASCII).
pub fn presented_api_key(x_api_key: Option<&str>, authorization: Option<&str>) -> (r: Option<
    String,
>)
    ensures
        r.deep_view() == presented_key_spec(
            match x_api_key {
                Some(k) => Some(k@),
                None => None,
            },
            match authorization {
                Some(a) => Some(a@),
                None => None,
            },
        ),
{
    match x_api_key {
        Some(k) => Some(k.to_owned()),
        None => match authorization {
            Some(a) => bearer_token(a),
            None => None,
        },
    }
}

/// Whether a request passes: `ip_trusted` says whether its address lies in
/// a trusted network; otherwise the presented key must equal the configured
/// one.
pub fn authorize(ip_trusted: bool, presented: Option<&str>, api_key: Option<&str>) -> (r: bool)
    ensures
        r == authorized_spec(
            ip_trusted,
            match presented {
                Some(k) => Some(k@),
                None => None,
            },
            match api_key {
                Some(k) => Some(k@),
                None => None,
            },
        ),
{
    if ip_trusted {
        return true;
    }
    match api_key {
        Some(expected) => match presented {
            Some(key) => str_equals(key, expected),
            None => false,
        },
        None => false,
    }
}

/// The view of an optional string.
pub open spec fn opt_view(s: Option<&str>) -> Option<Seq<char>> {
    match s {
        Some(k) => Some(k@),
        None => None,
    }
}

/// The whole decision of the authorization filter on one request: its
/// address (from `X-Forwarded-For` where that reads as an address, else its
/// peer) lies in a trusted network, or it presents the configured API key
/// in `X-Api-Key` or as a bearer token.
pub fn request_allowed(
    forwarded: Option<IpBytes>,
    peer: Option<IpBytes>,
    nets: &Vec<TrustedNet>,
    x_api_key: Option<&str>,
    authorization: Option<&str>,
    api_key: Option<&str>,
) -> (r: bool)
    ensures
        r == authorized_spec(
            trusted_spec(forwarded, peer, nets@),
            presented_key_spec(opt_view(x_api_key), opt_view(authorization)),
            opt_view(api_key),
        ),
{
    let ip_trusted = client_is_trusted(forwarded, peer, nets);
    let presented = presented_api_key(x_api_key, authorization);
    let key: Option<&str> = match &presented {
        Some(k) => Some(k.as_str()),
        None => None,
    };
    authorize(ip_trusted, key, api_key)
}

/// Without a configured API key only trusted addresses pass; with one, an
/// untrusted request passes exactly when it presents that key.
pub proof fn law_untrusted_needs_key(presented: Option<Seq<char>>, api_key: Option<Seq<char>>)
    ensures
        authorized_spec(true, presented, api_key),
        api_key is None ==> !authorized_spec(false, presented, api_key),
        api_key matches Some(k) ==> (authorized_spec(false, presented, api_key) <==> presented
            == Some(k)),
{
}

} // verus!
