//! Where a delivery goes: the host and port of an endpoint's URL, and the one
//! address among those it resolves to that the delivery is pinned to.

use vstd::prelude::*;
use vstd::string::StrSliceExecFns;

verus! {

/// Idle connections that a delivery's client keeps for its host.
pub const MAX_IDLE_PER_HOST: usize = 5;

/// Why a delivery ended before anything was sent.
#[derive(Debug, Clone, Copy, PartialEq, Eq, Structural)]
pub enum DropReason {
    /// The endpoint's URL does not parse.
    UrlUnparseable,
    /// The URL names no host.
    NoHost,
    /// The URL names no port, and its scheme has no default.
    NoPort,
    /// The host could not be resolved.
    ResolutionFailed,
    /// The host resolves to no address.
    NoAddresses,
    /// The host resolves to private addresses only, and the endpoint does not
    /// opt into those.
    PrivateOnly,
    /// The client could not be built.
    ClientBuildFailed,
}

/// What a delivery needs of a URL.
#[derive(Debug)]
pub struct UrlParts {
    pub host: Option<String>,
    pub port: Option<u16>,
}

/// What a [`UrlParts`] holds, as mathematical values.
pub struct UrlPartsView {
    pub host: Option<Seq<char>>,
    pub port: Option<u16>,
}

impl View for UrlParts {
    type V = UrlPartsView;

    open spec fn view(&self) -> UrlPartsView {
        UrlPartsView { host: crate::event::optional_text(self.host), port: self.port }
    }
}

pub open spec fn optional_parts(parts: Option<UrlParts>) -> Option<UrlPartsView> {
    match parts {
        Some(p) => Some(p@),
        None => None,
    }
}

/// What `url::Url` reads in a text: nothing, if the text does not parse as an
/// absolute URL, and else the host and the port, given or known by scheme.
pub uninterp spec fn url_parts(text: Seq<char>) -> Option<UrlPartsView>;

/// `url::Url::parse`, with `host_str` and `port_or_known_default` of the URL
/// that it gives. The result is determined by the text alone; how a URL is
/// taken apart is left to the crate.
#[verifier::external_body]
fn parse_url(text: &str) -> (r: Option<UrlParts>)
    ensures
        optional_parts(r) == url_parts(text@),
{
    match url::Url::parse(text) {
        Ok(u) => Some(
            UrlParts {
                host: u.host_str().map(|h| h.to_owned()),
                port: u.port_or_known_default(),
            },
        ),
        Err(_) => None,
    }
}

/// The host of a URL, as it stands there, and the port.
#[derive(Debug)]
pub struct EndpointTarget {
    pub host: String,
    pub port: u16,
}

/// What an [`EndpointTarget`] holds, as mathematical values.
pub struct TargetView {
    pub host: Seq<char>,
    pub port: u16,
}

impl View for EndpointTarget {
    type V = TargetView;

    open spec fn view(&self) -> TargetView {
        TargetView { host: self.host@, port: self.port }
    }
}

/// Whether a URL's host is a literal IPv6 address, which stands in brackets.
pub open spec fn in_brackets(host: Seq<char>) -> bool {
    host.len() >= 2 && host[0] == '[' && host.last() == ']'
}

impl TargetView {
    /// The name or address to resolve: that of the URL, without the brackets
    /// around a literal IPv6 address, which are the URL's alone.
    pub open spec fn lookup_host(self) -> Seq<char> {
        if in_brackets(self.host) {
            self.host.subrange(1, self.host.len() - 1)
        } else {
            self.host
        }
    }
}

impl EndpointTarget {
    /// The name or address to resolve, together with the port.
    pub fn lookup_host(&self) -> (r: String)
        ensures
            r@ == self@.lookup_host(),
    {
        let host = self.host.as_str();
        let len: usize = host.unicode_len();
        if len >= 2 && host.get_char(0) == '[' && host.get_char(len - 1) == ']' {
            host.substring_char(1, len - 1).to_owned()
        } else {
            host.to_owned()
        }
    }
}

/// A literal IPv6 address is looked up as the bare address; every other host is
/// looked up as it stands.
pub proof fn law_bare_address_is_looked_up(address: Seq<char>, target: TargetView)
    ensures
        target.host == seq!['['] + address + seq![']'] ==> target.lookup_host() == address,
        !in_brackets(target.host) ==> target.lookup_host() == target.host,
{
    let bracketed = seq!['['] + address + seq![']'];
    assert(bracketed.subrange(1, bracketed.len() - 1) =~= address);
}

pub open spec fn target_result(r: Result<EndpointTarget, DropReason>) -> Result<
    TargetView,
    DropReason,
> {
    match r {
        Ok(t) => Ok(t@),
        Err(e) => Err(e),
    }
}

/// The target in what was read of a URL.
pub open spec fn target_in(parts: Option<UrlPartsView>) -> Result<TargetView, DropReason> {
    match parts {
        None => Err(DropReason::UrlUnparseable),
        Some(UrlPartsView { host: None, .. }) => Err(DropReason::NoHost),
        Some(UrlPartsView { host: Some(_), port: None }) => Err(DropReason::NoPort),
        Some(UrlPartsView { host: Some(host), port: Some(port) }) => Ok(TargetView { host, port }),
    }
}

/// The target in what was read of a URL.
pub fn target_of(parts: Option<UrlParts>) -> (r: Result<EndpointTarget, DropReason>)
    ensures
        target_result(r) == target_in(optional_parts(parts)),
{
    match parts {
        None => Err(DropReason::UrlUnparseable),
        Some(parts) => match parts.host {
            None => Err(DropReason::NoHost),
            Some(host) => match parts.port {
                None => Err(DropReason::NoPort),
                Some(port) => Ok(EndpointTarget { host, port }),
            },
        },
    }
}

/// The target of an endpoint's URL.
pub fn endpoint_target(url: &str) -> (r: Result<EndpointTarget, DropReason>)
    ensures
        target_result(r) == target_in(url_parts(url@)),
{
    target_of(parse_url(url))
}

/// The host that a log may name, in what was read of a URL: none where the text
/// did not parse, since such a text may carry userinfo, and an empty one where
/// the URL names no host.
pub open spec fn loggable_in(parts: Option<UrlPartsView>) -> Option<Seq<char>> {
    match parts {
        None => None,
        Some(UrlPartsView { host: None, .. }) => Some(""@),
        Some(UrlPartsView { host: Some(host), .. }) => Some(host),
    }
}

/// The host that a log may name, in what was read of a URL.
pub fn loggable_of(parts: Option<UrlParts>) -> (r: Option<String>)
    ensures
        crate::event::optional_text(r) == loggable_in(optional_parts(parts)),
{
    match parts {
        None => None,
        Some(parts) => match parts.host {
            None => Some("".to_owned()),
            Some(host) => Some(host),
        },
    }
}

/// The host of an endpoint's URL, where a log may name the endpoint at all.
pub fn loggable_host(url: &str) -> (r: Option<String>)
    ensures
        crate::event::optional_text(r) == loggable_in(url_parts(url@)),
{
    loggable_of(parse_url(url))
}

/// An address that a host resolves to, and whether it is private, loopback or
/// link-local.
#[derive(Debug)]
pub struct ResolvedAddress {
    pub address: String,
    pub private: bool,
}

/// What a [`ResolvedAddress`] holds, as mathematical values.
pub struct AddressView {
    pub address: Seq<char>,
    pub private: bool,
}

impl View for ResolvedAddress {
    type V = AddressView;

    open spec fn view(&self) -> AddressView {
        AddressView { address: self.address@, private: self.private }
    }
}

impl Clone for ResolvedAddress {
    fn clone(&self) -> (r: Self)
        ensures
            r@ == self@,
    {
        ResolvedAddress { address: self.address.clone(), private: self.private }
    }
}

pub open spec fn address_views(s: Seq<ResolvedAddress>) -> Seq<AddressView> {
    s.map_values(|a: ResolvedAddress| a@)
}

/// The outcome of resolving a host: its addresses, or nothing where that failed.
pub open spec fn resolution(resolved: Option<Vec<ResolvedAddress>>) -> Option<Seq<AddressView>> {
    match resolved {
        Some(addresses) => Some(address_views(addresses@)),
        None => None,
    }
}

impl AddressView {
    /// Whether a delivery may go to this address.
    pub open spec fn allowed(self, allow_private: bool) -> bool {
        allow_private || !self.private
    }
}

/// The first address that may be delivered to.
pub open spec fn first_allowed(addresses: Seq<AddressView>, allow_private: bool) -> Option<
    AddressView,
>
    decreases addresses.len(),
{
    if addresses.len() == 0 {
        None
    } else if addresses[0].allowed(allow_private) {
        Some(addresses[0])
    } else {
        first_allowed(addresses.drop_first(), allow_private)
    }
}

/// How to build the client of one delivery: the host's name stands for the
/// chosen address and no other, and redirects are not followed.
#[derive(Debug)]
pub struct PinnedClient {
    pub host: String,
    pub address: ResolvedAddress,
    pub timeout_ms: u64,
    pub max_idle_per_host: usize,
    pub follow_redirects: bool,
}

/// What a [`PinnedClient`] holds, as mathematical values.
pub struct PinView {
    pub host: Seq<char>,
    pub address: AddressView,
    pub timeout_ms: u64,
    pub max_idle_per_host: usize,
    pub follow_redirects: bool,
}

impl View for PinnedClient {
    type V = PinView;

    open spec fn view(&self) -> PinView {
        PinView {
            host: self.host@,
            address: self.address@,
            timeout_ms: self.timeout_ms,
            max_idle_per_host: self.max_idle_per_host,
            follow_redirects: self.follow_redirects,
        }
    }
}

pub open spec fn pin_result(r: Result<PinnedClient, DropReason>) -> Result<PinView, DropReason> {
    match r {
        Ok(p) => Ok(p@),
        Err(e) => Err(e),
    }
}

/// The client for a host that resolves to the given addresses.
pub open spec fn pin(
    timeout_ms: u64,
    host: Seq<char>,
    resolved: Option<Seq<AddressView>>,
    allow_private: bool,
) -> Result<PinView, DropReason> {
    match resolved {
        None => Err(DropReason::ResolutionFailed),
        Some(addresses) => if addresses.len() == 0 {
            Err(DropReason::NoAddresses)
        } else {
            match first_allowed(addresses, allow_private) {
                None => Err(DropReason::PrivateOnly),
                Some(address) => Ok(
                    PinView {
                        host,
                        address,
                        timeout_ms,
                        max_idle_per_host: MAX_IDLE_PER_HOST,
                        follow_redirects: false,
                    },
                ),
            }
        },
    }
}

/// Chooses the address that a delivery is pinned to.
pub fn pin_address(
    timeout_ms: u64,
    target: EndpointTarget,
    resolved: Option<Vec<ResolvedAddress>>,
    allow_private: bool,
) -> (r: Result<PinnedClient, DropReason>)
    ensures
        pin_result(r) == pin(timeout_ms, target@.host, resolution(resolved), allow_private),
{
    let addresses = match resolved {
        None => return Err(DropReason::ResolutionFailed),
        Some(addresses) => addresses,
    };
    if addresses.len() == 0 {
        return Err(DropReason::NoAddresses);
    }
    let ghost views = address_views(addresses@);
    assert(views.skip(0) =~= views);
    for i in 0..addresses.len()
        invariant
            views == address_views(addresses@),
            views.len() > 0,
            resolution(resolved) == Some(views),
            first_allowed(views, allow_private) == first_allowed(views.skip(i as int), allow_private),
    {
        assert(views.skip(i as int).drop_first() =~= views.skip(i + 1));
        assert(views.skip(i as int)[0] == addresses@[i as int]@);
        if allow_private || !addresses[i].private {
            return Ok(
                PinnedClient {
                    host: target.host,
                    address: addresses[i].clone(),
                    timeout_ms,
                    max_idle_per_host: MAX_IDLE_PER_HOST,
                    follow_redirects: false,
                },
            );
        }
    }
    assert(views.skip(views.len() as int) =~= Seq::<AddressView>::empty());
    Err(DropReason::PrivateOnly)
}

proof fn lemma_first_allowed(addresses: Seq<AddressView>, allow_private: bool)
    ensures
        first_allowed(addresses, allow_private) is Some <==> exists|i: int|
            0 <= i < addresses.len() && #[trigger] addresses[i].allowed(allow_private),
        first_allowed(addresses, allow_private) is Some ==> {
            let a = first_allowed(addresses, allow_private)->0;
            addresses.contains(a) && a.allowed(allow_private)
        },
    decreases addresses.len(),
{
    if addresses.len() > 0 && !addresses[0].allowed(allow_private) {
        let rest = addresses.drop_first();
        lemma_first_allowed(rest, allow_private);
        if exists|i: int| 0 <= i < addresses.len() && #[trigger] addresses[i].allowed(allow_private) {
            let i = choose|i: int|
                0 <= i < addresses.len() && #[trigger] addresses[i].allowed(allow_private);
            assert(rest[i - 1].allowed(allow_private));
        }
        if first_allowed(rest, allow_private) is Some {
            let a = first_allowed(rest, allow_private)->0;
            let j = choose|j: int| 0 <= j < rest.len() && rest[j] == a;
            assert(addresses[j + 1].allowed(allow_private));
        }
    }
}

/// The guard: a client is built only for an address that the host resolved to,
/// and never for a private one unless the endpoint opts in; it follows no
/// redirects. A host with an allowed address always gets one; a host with
/// private addresses only is refused unless the endpoint opts in.
pub proof fn law_no_private_delivery(
    timeout_ms: u64,
    host: Seq<char>,
    addresses: Seq<AddressView>,
    allow_private: bool,
)
    ensures
        pin(timeout_ms, host, Some(addresses), allow_private) is Ok <==> exists|i: int|
            0 <= i < addresses.len() && #[trigger] addresses[i].allowed(allow_private),
        match pin(timeout_ms, host, Some(addresses), allow_private) {
            Ok(p) => {
                &&& addresses.contains(p.address)
                &&& p.address.private ==> allow_private
                &&& p.host == host
                &&& !p.follow_redirects
            },
            Err(reason) => reason == if addresses.len() == 0 {
                DropReason::NoAddresses
            } else {
                DropReason::PrivateOnly
            },
        },
{
    lemma_first_allowed(addresses, allow_private);
}

} // verus!
