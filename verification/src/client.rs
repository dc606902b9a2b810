//! The client: which request each operation sends to the backend, and what
//! the backend's results mean.
//!
//! Every operation is one request and one answer. The client keeps no state
//! between them; whoever holds the native backend sends the request and
//! hands the results back.

use crate::error::Error;
use crate::package::{decode_array, decoded_packages, package_views, Package, RawPackage};
use crate::text::{decode_text, decoded_text, encode_text, encoded_text, has_nul, raw_view};
use vstd::prelude::*;
use vstd::utf8::encode_utf8;

verus! {

/// The backend's filter that keeps the packages which are not installed.
pub const FILTER_NOT_INSTALLED: u64 = 3;

/// A request to the backend. Each text is a null-terminated native buffer.
#[derive(Debug)]
pub enum Request {
    /// Resolve the given names to packages, under the given filters.
    Resolve { filters: u64, names: Vec<Vec<u8>> },
    /// Install the packages with the given identifiers.
    InstallPackages { ids: Vec<Vec<u8>> },
}

/// What a `Request` holds.
pub enum RequestView {
    Resolve { filters: u64, names: Seq<Seq<u8>> },
    InstallPackages { ids: Seq<Seq<u8>> },
}

/// The contents of a sequence of buffers.
pub open spec fn buffer_views(bufs: Seq<Vec<u8>>) -> Seq<Seq<u8>> {
    Seq::new(bufs.len(), |i: int| bufs[i]@)
}

impl View for Request {
    type V = RequestView;

    open spec fn view(&self) -> RequestView {
        match self {
            Request::Resolve { filters, names } => RequestView::Resolve {
                filters: *filters,
                names: buffer_views(names@),
            },
            Request::InstallPackages { ids } => RequestView::InstallPackages {
                ids: buffer_views(ids@),
            },
        }
    }
}

/// What the backend answered to one request. `error` is `None` where the
/// results carry no error code, and else the backend's rendering of the
/// code, as a native buffer that may be null. `packages` are the records of
/// the results' package array, in the backend's order.
#[derive(Debug)]
pub struct Results {
    pub error: Option<Option<Vec<u8>>>,
    pub packages: Vec<RawPackage>,
}

/// The request that a search for `name` sends: one name, resolved among the
/// packages that are not installed.
pub open spec fn search_request(name: Seq<char>) -> RequestView {
    RequestView::Resolve { filters: FILTER_NOT_INSTALLED, names: seq![encoded_text(name)] }
}

/// The request that installs the packages `pkgs`: their identifiers, each in
/// a buffer of its own, in the order of `pkgs`.
pub open spec fn install_request(pkgs: Seq<Package>) -> RequestView {
    RequestView::InstallPackages {
        ids: Seq::new(pkgs.len(), |i: int| encoded_text(pkgs[i]@.id)),
    }
}

/// Whether every identifier in `pkgs` can stand in a native buffer: none
/// holds a zero byte.
pub open spec fn installable(pkgs: Seq<Package>) -> bool {
    forall|i: int| 0 <= i < pkgs.len() ==> !encode_utf8(#[trigger] pkgs[i]@.id).contains(0u8)
}

/// A handle to the native backend. It holds no state.
#[derive(Debug)]
pub struct PackageKit {}

impl PackageKit {
    /// A new handle.
    pub fn new() -> (r: Self)
        ensures
            r == (PackageKit {  }),
    {
        PackageKit {  }
    }

    /// The request that searches the packages not yet installed for `name`.
    /// The name goes out as it is; a native reader takes a zero byte in it
    /// for its end.
    pub fn search_package(&self, name: &str) -> (r: Request)
        ensures
            r@ == search_request(name@),
    {
        let mut names: Vec<Vec<u8>> = Vec::new();
        names.push(encode_text(name));
        let r = Request::Resolve { filters: FILTER_NOT_INSTALLED, names };
        assert(r@->Resolve_names =~= seq![encoded_text(name@)]);
        r
    }

    /// What a search returns, given the backend's results for its request:
    /// the error where the results carry one, with the backend's message and
    /// no package decoded; else every package of the results, in their order.
    pub fn search_outcome(&self, results: &Results) -> (r: Result<Vec<Package>, Error>)
        ensures
            match results.error {
                Some(msg) => r is Err && r->Err_0@ == decoded_text(raw_view(msg)),
                None => r is Ok && package_views(r->Ok_0@) == decoded_packages(
                    results.packages@,
                ),
            },
    {
        match &results.error {
            Some(msg) => Err(Error::new(decode_text(msg))),
            None => Ok(decode_array(&results.packages)),
        }
    }

    /// Whether `pkgs` can be installed: whether each identifier can stand in
    /// a native buffer.
    pub fn can_install(&self, pkgs: &Vec<Package>) -> (r: bool)
        ensures
            r == installable(pkgs@),
    {
        let mut i: usize = 0;
        while i < pkgs.len()
            invariant
                i <= pkgs.len(),
                forall|k: int| 0 <= k < i ==> !encode_utf8(#[trigger] pkgs@[k]@.id).contains(0u8),
            decreases pkgs.len() - i,
        {
            if has_nul(pkgs[i].id()) {
                return false;
            }
            i += 1;
        }
        true
    }

    /// The request that installs `pkg` alone.
    pub fn install(&self, pkg: &Package) -> (r: Request)
        requires
            !encode_utf8(pkg@.id).contains(0u8),
        ensures
            r@ == install_request(seq![*pkg]),
    {
        let mut pkgs: Vec<Package> = Vec::new();
        pkgs.push(pkg.clone());
        let r = self.install_packages(&pkgs);
        assert(install_request(pkgs@)->InstallPackages_ids =~= install_request(
            seq![*pkg],
        )->InstallPackages_ids);
        r
    }

    /// The request that installs `pkgs`: one identifier for each package, in
    /// order. An empty `pkgs` gives a request with no identifier.
    pub fn install_packages(&self, pkgs: &Vec<Package>) -> (r: Request)
        requires
            installable(pkgs@),
        ensures
            r@ == install_request(pkgs@),
    {
        let mut ids: Vec<Vec<u8>> = Vec::new();
        let mut i: usize = 0;
        while i < pkgs.len()
            invariant
                i <= pkgs.len(),
                ids@.len() == i,
                forall|k: int| 0 <= k < i ==> (#[trigger] ids@[k])@ == encoded_text(pkgs@[k]@.id),
            decreases pkgs.len() - i,
        {
            ids.push(encode_text(pkgs[i].id()));
            i += 1;
        }
        let r = Request::InstallPackages { ids };
        assert(r@->InstallPackages_ids =~= install_request(pkgs@)->InstallPackages_ids);
        r
    }

    /// What an installation returns, given the backend's results for its
    /// request: the error where the results carry one, with the backend's
    /// message, and else success.
    pub fn install_outcome(&self, results: &Results) -> (r: Result<(), Error>)
        ensures
            match results.error {
                Some(msg) => r is Err && r->Err_0@ == decoded_text(raw_view(msg)),
                None => r is Ok,
            },
    {
        match &results.error {
            Some(msg) => Err(Error::new(decode_text(msg))),
            None => Ok(()),
        }
    }
}

} // verus!
