//! The middleware configuration and its phases.
//!
//! A `Meteoritus` is built up while in the `Build` phase, frozen by
//! [`Meteoritus::build`] into the `Ignite` phase, and launched into the
//! `Orbit` phase when the host server starts serving; from `Ignite` on it
//! never changes.

use crate::dec::dec_digits;
use crate::dec::u64_to_dec;
use core::marker::PhantomData;
use vstd::prelude::*;
use vstd::string::StringExecFns;

verus! {

/// The phase while the configuration is still being collected.
#[derive(Debug)]
pub struct Build;

/// The phase once the configuration is frozen.
#[derive(Debug)]
pub struct Ignite;

/// The phase while the middleware serves requests.
#[derive(Debug)]
pub struct Orbit;

/// The default maximum upload size: five mebibytes.
pub const DEFAULT_MAX_SIZE: u64 = 5242880;

/// A list of strings joined by commas.
pub open spec fn join_commas(xs: Seq<Seq<char>>) -> Seq<char>
    decreases xs.len(),
{
    if xs.len() == 0 {
        Seq::empty()
    } else if xs.len() == 1 {
        xs[0]
    } else {
        join_commas(xs.drop_last()) + seq![','] + xs.last()
    }
}

/// The views of a list of strings.
pub open spec fn string_views(v: Seq<String>) -> Seq<Seq<char>> {
    Seq::new(v.len(), |i: int| v[i]@)
}

/// The tus protocol headers the middleware emits.
#[derive(Debug)]
pub enum MeteoritusHeaders {
    /// `Tus-Max-Size`: the configured cap on upload sizes, in bytes.
    MaxSize(u64),
    /// `Tus-Extension`: the protocol extensions the server offers.
    Extensions(Vec<String>),
    /// `Tus-Version`: the protocol versions the server speaks.
    Version(Vec<String>),
    /// `Tus-Resumable`: the protocol version of this exchange.
    Resumable(String),
}

impl MeteoritusHeaders {
    /// The header as a name/value pair, lists joined by commas.
    pub fn into_header(self) -> (r: (String, String))
        ensures
            self matches MeteoritusHeaders::MaxSize(s) ==> r.0@ == "Tus-Max-Size"@ && r.1@
                == dec_digits(s as nat),
            self matches MeteoritusHeaders::Extensions(e) ==> r.0@ == "Tus-Extension"@ && r.1@
                == join_commas(string_views(e@)),
            self matches MeteoritusHeaders::Version(v) ==> r.0@ == "Tus-Version"@ && r.1@
                == join_commas(string_views(v@)),
            self matches MeteoritusHeaders::Resumable(s) ==> r.0@ == "Tus-Resumable"@ && r.1@ == s@,
    {
        match self {
            MeteoritusHeaders::MaxSize(s) => ("Tus-Max-Size".to_owned(), u64_to_dec(s)),
            MeteoritusHeaders::Extensions(e) => ("Tus-Extension".to_owned(), join_commas_exec(e)),
            MeteoritusHeaders::Version(v) => ("Tus-Version".to_owned(), join_commas_exec(v)),
            MeteoritusHeaders::Resumable(s) => ("Tus-Resumable".to_owned(), s),
        }
    }
}

/// Joins the strings of `v` with commas.
fn join_commas_exec(v: Vec<String>) -> (r: String)
    ensures
        r@ == join_commas(string_views(v@)),
{
    proof {
        reveal_strlit(",");
    }
    let mut out = String::new();
    let n = v.len();
    let mut i: usize = 0;
    while i < n
        invariant
            0 <= i <= n == v@.len(),
            out@ == join_commas(string_views(v@).take(i as int)),
        decreases n - i,
    {
        proof {
            reveal_strlit(",");
            assert(string_views(v@).take(i + 1).drop_last() =~= string_views(v@).take(i as int));
            assert(string_views(v@).take(i + 1).last() == v@[i as int]@);
        }
        if i > 0 {
            out.append(",");
        }
        out.append(v[i].as_str());
        proof {
            if i == 0 {
                assert(out@ =~= join_commas(string_views(v@).take(1)));
            } else {
                assert(out@ =~= join_commas(string_views(v@).take(i as int)) + seq![','] + v@[
                i as int]@);
            }
        }
        i = i + 1;
    }
    proof {
        assert(string_views(v@).take(n as int) =~= string_views(v@));
    }
    out
}

/// The middleware's configuration: where its routes mount, where the
/// default vault stores files, the upload size cap, and whether completed
/// uploads are removed after the completion callback.
pub struct Meteoritus<P> {
    auto_terminate: bool,
    base_route: String,
    temp_path: String,
    max_size: u64,
    state: PhantomData<P>,
}

impl<P> Meteoritus<P> {
    /// Where the routes mount.
    pub closed spec fn base_route_spec(&self) -> Seq<char> {
        self.base_route@
    }

    /// Where the default vault stores files.
    pub closed spec fn temp_path_spec(&self) -> Seq<char> {
        self.temp_path@
    }

    /// The cap on `Upload-Length` and the `PATCH` body, in bytes.
    pub closed spec fn max_size_spec(&self) -> u64 {
        self.max_size
    }

    /// Whether completed uploads are removed automatically.
    pub closed spec fn auto_terminate_spec(&self) -> bool {
        self.auto_terminate
    }

    /// Whether `other` carries the same configuration.
    pub open spec fn same_config<P2>(&self, other: &Meteoritus<P2>) -> bool {
        self.base_route_spec() == other.base_route_spec() && self.temp_path_spec()
            == other.temp_path_spec() && self.max_size_spec() == other.max_size_spec()
            && self.auto_terminate_spec() == other.auto_terminate_spec()
    }

    /// The `Tus-Version` header: the protocol versions the server speaks.
    pub fn get_protocol_version(&self) -> (r: MeteoritusHeaders)
        ensures
            r matches MeteoritusHeaders::Version(v) && v@.len() == 1 && v@[0]@ == "1.0.0"@,
    {
        let mut v: Vec<String> = Vec::new();
        v.push("1.0.0".to_owned());
        MeteoritusHeaders::Version(v)
    }

    /// The `Tus-Resumable` header: the protocol version of this exchange.
    pub fn get_protocol_resumable_version(&self) -> (r: MeteoritusHeaders)
        ensures
            r matches MeteoritusHeaders::Resumable(s) && s@ == "1.0.0"@,
    {
        MeteoritusHeaders::Resumable("1.0.0".to_owned())
    }

    /// The `Tus-Extension` header: creation and termination are offered.
    pub fn get_protocol_extensions(&self) -> (r: MeteoritusHeaders)
        ensures
            r matches MeteoritusHeaders::Extensions(e) && e@.len() == 2 && e@[0]@ == "creation"@
                && e@[1]@ == "termination"@,
    {
        let mut e: Vec<String> = Vec::new();
        e.push("creation".to_owned());
        e.push("termination".to_owned());
        MeteoritusHeaders::Extensions(e)
    }

    /// The `Tus-Max-Size` header: the configured upload size cap.
    pub fn get_protocol_max_size(&self) -> (r: MeteoritusHeaders)
        ensures
            r matches MeteoritusHeaders::MaxSize(s) && s == self.max_size_spec(),
    {
        MeteoritusHeaders::MaxSize(self.max_size)
    }
}

impl Meteoritus<Build> {
    /// The default configuration: routes under `/meteoritus`, files under
    /// `./tmp/files`, a five-mebibyte size cap, and auto-termination on.
    pub fn new() -> (r: Meteoritus<Build>)
        ensures
            r.auto_terminate_spec(),
            r.base_route_spec() == "/meteoritus"@,
            r.temp_path_spec() == "./tmp/files"@,
            r.max_size_spec() == DEFAULT_MAX_SIZE,
    {
        Meteoritus {
            auto_terminate: true,
            base_route: "/meteoritus".to_owned(),
            temp_path: "./tmp/files".to_owned(),
            max_size: DEFAULT_MAX_SIZE,
            state: PhantomData,
        }
    }

    /// Freezes the configuration.
    pub fn build(self) -> (r: Meteoritus<Ignite>)
        ensures
            r.same_config(&self),
    {
        Meteoritus {
            auto_terminate: self.auto_terminate,
            base_route: self.base_route,
            temp_path: self.temp_path,
            max_size: self.max_size,
            state: PhantomData,
        }
    }

    /// Keeps completed uploads on storage instead of removing them after
    /// the completion callback.
    pub fn keep_on_disk(self) -> (r: Meteoritus<Build>)
        ensures
            !r.auto_terminate_spec(),
            r.base_route_spec() == self.base_route_spec(),
            r.temp_path_spec() == self.temp_path_spec(),
            r.max_size_spec() == self.max_size_spec(),
    {
        Meteoritus {
            auto_terminate: false,
            base_route: self.base_route,
            temp_path: self.temp_path,
            max_size: self.max_size,
            state: PhantomData,
        }
    }

    /// Mounts the routes under `base_route`.
    pub fn mount_to(self, base_route: &str) -> (r: Meteoritus<Build>)
        ensures
            r.base_route_spec() == base_route@,
            r.temp_path_spec() == self.temp_path_spec(),
            r.max_size_spec() == self.max_size_spec(),
            r.auto_terminate_spec() == self.auto_terminate_spec(),
    {
        Meteoritus {
            auto_terminate: self.auto_terminate,
            base_route: base_route.to_owned(),
            temp_path: self.temp_path,
            max_size: self.max_size,
            state: PhantomData,
        }
    }

    /// Stores uploads under `temp_path`.
    pub fn with_temp_path(self, temp_path: &str) -> (r: Meteoritus<Build>)
        ensures
            r.temp_path_spec() == temp_path@,
            r.base_route_spec() == self.base_route_spec(),
            r.max_size_spec() == self.max_size_spec(),
            r.auto_terminate_spec() == self.auto_terminate_spec(),
    {
        Meteoritus {
            auto_terminate: self.auto_terminate,
            base_route: self.base_route,
            temp_path: temp_path.to_owned(),
            max_size: self.max_size,
            state: PhantomData,
        }
    }

    /// Caps `Upload-Length` and the `PATCH` body at `size` bytes.
    pub fn with_max_size(self, size: u64) -> (r: Meteoritus<Build>)
        ensures
            r.max_size_spec() == size,
            r.base_route_spec() == self.base_route_spec(),
            r.temp_path_spec() == self.temp_path_spec(),
            r.auto_terminate_spec() == self.auto_terminate_spec(),
    {
        Meteoritus {
            auto_terminate: self.auto_terminate,
            base_route: self.base_route,
            temp_path: self.temp_path,
            max_size: size,
            state: PhantomData,
        }
    }
}

impl Meteoritus<Ignite> {
    /// Hands the frozen configuration to the serving phase.
    pub fn launch(&self) -> (r: Meteoritus<Orbit>)
        ensures
            r.same_config(self),
    {
        Meteoritus {
            auto_terminate: self.auto_terminate,
            base_route: self.base_route.clone(),
            temp_path: self.temp_path.clone(),
            max_size: self.max_size,
            state: PhantomData,
        }
    }
}

impl Meteoritus<Orbit> {
    /// Where the routes mount.
    pub fn base_route(&self) -> (r: &str)
        ensures
            r@ == self.base_route_spec(),
    {
        self.base_route.as_str()
    }

    /// Where the default vault stores files.
    pub fn temp_path(&self) -> (r: &str)
        ensures
            r@ == self.temp_path_spec(),
    {
        self.temp_path.as_str()
    }

    /// Whether completed uploads are removed automatically.
    pub fn auto_terminate(&self) -> (r: bool)
        ensures
            r == self.auto_terminate_spec(),
    {
        self.auto_terminate
    }

    /// The cap on `Upload-Length` and the `PATCH` body, in bytes.
    pub fn max_size(&self) -> (r: u64)
        ensures
            r == self.max_size_spec(),
    {
        self.max_size
    }
}

} // verus!
