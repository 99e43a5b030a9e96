//! Resolution of the peer's domain to a current address.
use trust_dns_resolver::config::{ResolverConfig, ResolverOpts};
use trust_dns_resolver::error::ResolveError;
use trust_dns_resolver::Resolver;
use vstd::prelude::*;

verus! {

#[verifier::external_type_specification]
#[verifier::external_body]
pub struct ExResolver(Resolver);

#[verifier::external_type_specification]
#[verifier::external_body]
pub struct ExResolveError(ResolveError);

#[verifier::external_type_specification]
#[verifier::external_body]
pub struct ExIoError(std::io::Error);

/// Relies on trust_dns_resolver::Resolver::new with the default
/// configuration and options: it builds the resolver and its runtime, or
/// fails with the runtime's I/O error. It does not panic: making the inner
/// asynchronous resolver from a configuration always succeeds.
#[verifier::external_body]
fn default_resolver() -> (r: Result<Resolver, std::io::Error>) {
    Resolver::new(ResolverConfig::default(), ResolverOpts::default())
}

/// Relies on trust_dns_resolver::Resolver::lookup_ip: the addresses that
/// the lookup of `domain` returned, in the order given, each written out by
/// its `Display`, or the lookup's error. The outcome depends on the network;
/// what holds of every outcome is that `Display` of an IP address never
/// writes empty text.
#[verifier::external_body]
fn lookup_addresses(resolver: &Resolver, domain: &str) -> (r: Result<Vec<String>, ResolveError>)
    ensures
        r matches Ok(v) ==> forall|i: int| 0 <= i < v@.len() ==> #[trigger] v@[i]@.len() > 0,
{
    resolver.lookup_ip(domain).map(|found| found.iter().map(|ip| ip.to_string()).collect())
}

/// The resolver could not be set up.
#[derive(Debug, Clone, Copy, PartialEq, Eq, Structural)]
pub struct ResolverInitError;

/// The first address of a lookup's result, if it has any.
pub fn first_address(addrs: &Vec<String>) -> (r: Option<String>)
    ensures
        addrs@.len() == 0 ==> r is None,
        addrs@.len() > 0 ==> (r matches Some(a) && a@ == addrs@[0]@),
{
    if addrs.len() == 0 {
        None
    } else {
        Some(addrs[0].clone())
    }
}

/// The address that a lookup's outcome yields: its first address, or None
/// where the lookup failed or found no address.
pub fn first_of_lookup(found: Result<Vec<String>, ResolveError>) -> (r: Option<String>)
    ensures
        found is Err ==> r is None,
        found matches Ok(v) ==> (v@.len() == 0 ==> r is None) && (v@.len() > 0 ==> (r matches Some(
            a,
        ) && a@ == v@[0]@)),
{
    match found {
        Ok(addrs) => first_address(&addrs),
        Err(_) => None,
    }
}

/// A name resolver made once and used for every lookup.
pub struct MyResolver {
    resolver: Resolver,
}

impl MyResolver {
    /// A resolver with the default configuration.
    pub fn new() -> (r: Result<MyResolver, ResolverInitError>) {
        match default_resolver() {
            Ok(resolver) => Ok(MyResolver { resolver }),
            Err(_) => Err(ResolverInitError),
        }
    }

    /// The first address that `domain` resolves to now; None where the
    /// lookup fails or finds no address.
    /// Resolution failure is no error: it only yields no address.
    pub fn gethostbyname(&self, domain: &str) -> (r: Option<String>)
        ensures
            r matches Some(a) ==> a@.len() > 0,
    {
        first_of_lookup(lookup_addresses(&self.resolver, domain))
    }
}

} // verus!
