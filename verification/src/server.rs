use vstd::prelude::*;

verus! {

/// The error kinds of the pipeline, from the outer envelope inward:
/// `EnvelopeDecodeError` when the whole payload is not base64 text,
/// `UnsupportedSchemeError` when a line carries no known scheme prefix,
/// `MalformedLinkError` when a recognized scheme's body has the wrong shape.
/// No kind exists for a tag outside the closed country domain reaching the
/// emitter: the tag type is that closed domain, so the case cannot arise.
#[derive(Clone, Copy, Debug, PartialEq, Eq, Structural)]
pub enum ParseError {
    EnvelopeDecodeError,
    UnsupportedSchemeError,
    MalformedLinkError,
}

/// A vmess endpoint: the six wire fields, with the port already validated
/// as a number in `1..=65535`. `alter_id` stays numeric text, as the wire
/// carries it.
#[derive(Debug)]
pub struct Vmess {
    pub version: String,
    pub name: String,
    pub host: String,
    pub port: u16,
    pub uuid: String,
    pub alter_id: String,
}

/// A shadowsocks endpoint. `udp` is always enabled by this pipeline;
/// the port is validated as a number in `1..=65535`.
#[derive(Debug)]
pub struct ShadowSocks {
    pub name: String,
    pub host: String,
    pub port: u16,
    pub cipher: String,
    pub password: String,
    pub udp: bool,
}

/// Mathematical image of a `Vmess` value: every text field as a `Seq<char>`.
pub ghost struct VmessV {
    pub version: Seq<char>,
    pub name: Seq<char>,
    pub host: Seq<char>,
    pub port: u16,
    pub uuid: Seq<char>,
    pub alter_id: Seq<char>,
}

/// Mathematical image of a `ShadowSocks` value.
pub ghost struct ShadowSocksV {
    pub name: Seq<char>,
    pub host: Seq<char>,
    pub port: u16,
    pub cipher: Seq<char>,
    pub password: Seq<char>,
    pub udp: bool,
}

/// One parsed proxy endpoint; produced once per input line, never mutated.
#[derive(Debug)]
pub enum Server {
    Vmess(Vmess),
    SS(ShadowSocks),
}

/// Mathematical image of a `Server`.
pub ghost enum ServerV {
    Vmess(VmessV),
    SS(ShadowSocksV),
}

impl View for Vmess {
    type V = VmessV;

    open spec fn view(&self) -> VmessV {
        VmessV {
            version: self.version@,
            name: self.name@,
            host: self.host@,
            port: self.port,
            uuid: self.uuid@,
            alter_id: self.alter_id@,
        }
    }
}

impl View for ShadowSocks {
    type V = ShadowSocksV;

    open spec fn view(&self) -> ShadowSocksV {
        ShadowSocksV {
            name: self.name@,
            host: self.host@,
            port: self.port,
            cipher: self.cipher@,
            password: self.password@,
            udp: self.udp,
        }
    }
}

impl View for Server {
    type V = ServerV;

    open spec fn view(&self) -> ServerV {
        match self {
            Server::Vmess(v) => ServerV::Vmess(v@),
            Server::SS(s) => ServerV::SS(s@),
        }
    }
}

impl VmessV {
    /// A vmess descriptor is well formed when its label is non-empty, its
    /// port lies in `1..=65535` and its alter id is numeric text.
    pub open spec fn wf(self) -> bool {
        self.name.len() > 0 && self.port >= 1 && self.alter_id.len() > 0
    }
}

impl ShadowSocksV {
    /// A shadowsocks descriptor is well formed when its label is
    /// non-empty and its port lies in `1..=65535`.
    pub open spec fn wf(self) -> bool {
        self.name.len() > 0 && self.port >= 1
    }
}

impl ServerV {
    /// The display label of a descriptor, the key the classifier reads.
    pub open spec fn name(self) -> Seq<char> {
        match self {
            ServerV::Vmess(v) => v.name,
            ServerV::SS(s) => s.name,
        }
    }

    /// A descriptor is well formed when its variant is.
    pub open spec fn wf(self) -> bool {
        match self {
            ServerV::Vmess(v) => v.wf(),
            ServerV::SS(s) => s.wf(),
        }
    }
}

impl Server {
    /// The display label of this endpoint.
    pub fn name(&self) -> (r: String)
        ensures
            r@ == self@.name(),
    {
        match self {
            Server::Vmess(v) => v.name.clone(),
            Server::SS(s) => s.name.clone(),
        }
    }
}

} // verus!
