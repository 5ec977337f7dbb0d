use vstd::prelude::*;
use vstd::string::StringExecFns;
use crate::common::text::{decimal, decimal_text, join};

verus! {

/// What an address is made of, as far as a socket needs it: the scheme, the
/// host where the address has one, and the port that the address gives or
/// that its scheme implies.
#[derive(Debug, PartialEq, Eq)]
pub struct EndpointParts {
    pub scheme: String,
    pub host: Option<String>,
    pub port: Option<u16>,
}

/// The parts of an address as text.
pub struct EndpointPartsView {
    pub scheme: Seq<char>,
    pub host: Option<Seq<char>>,
    pub port: Option<u16>,
}

impl View for EndpointParts {
    type V = EndpointPartsView;

    open spec fn view(&self) -> EndpointPartsView {
        EndpointPartsView {
            scheme: self.scheme@,
            host: match self.host {
                Some(host) => Some(host@),
                None => None,
            },
            port: self.port,
        }
    }
}

/// What `url::Url::parse` makes of an address: its scheme, host and port, or
/// the words of the parser's error.
pub uninterp spec fn endpoint_parts(endpoint: Seq<char>) -> Result<
    (Seq<char>, Option<Seq<char>>, Option<u16>),
    Seq<char>,
>;

/// `url::Url::parse`, with `scheme`, `host_str` and `port_or_known_default`
/// of the address that it gives: takes an address apart, or gives the words
/// of the parser's error. The result depends on the address alone.
#[verifier::external_body]
pub(crate) fn parse_endpoint(endpoint: &str) -> (parsed: Result<EndpointParts, String>)
    ensures
        match parsed {
            Ok(parts) => endpoint_parts(endpoint@) == Ok::<
                (Seq<char>, Option<Seq<char>>, Option<u16>),
                Seq<char>,
            >((parts@.scheme, parts@.host, parts@.port)),
            Err(error) => endpoint_parts(endpoint@) == Err::<
                (Seq<char>, Option<Seq<char>>, Option<u16>),
                Seq<char>,
            >(error@),
        },
{
    match url::Url::parse(endpoint) {
        Ok(url) => Ok(
            EndpointParts {
                scheme: url.scheme().to_string(),
                host: match url.host_str() {
                    Some(host) => Some(host.to_string()),
                    None => None,
                },
                port: url.port_or_known_default(),
            },
        ),
        Err(error) => Err(error.to_string()),
    }
}

/// The port of a socket: that of the address, or the usual one of its
/// scheme where the address has none.
pub open spec fn socket_port(parts: EndpointPartsView) -> u16 {
    match parts.port {
        Some(port) => port,
        None => if parts.scheme == "https"@ {
            443u16
        } else {
            80u16
        },
    }
}

/// The address of the socket of a server: `wss` for `https` and `ws` for
/// everything else, the host, the port unless it is 80 or 443, and the path
/// `/ws`. An address without a host has no socket.
pub open spec fn socket_address(parts: EndpointPartsView) -> Result<Seq<char>, Seq<char>> {
    match parts.host {
        None => Err("No host found in URL"@),
        Some(host) => {
            let protocol = if parts.scheme == "https"@ {
                "wss://"@
            } else {
                "ws://"@
            };
            let port = socket_port(parts);
            if port == 80 || port == 443 {
                Ok(protocol + host + "/ws"@)
            } else {
                Ok(protocol + host + ":"@ + decimal_text(port as nat) + "/ws"@)
            }
        },
    }
}

/// Writes the address of the socket of a server from the parts of the
/// server's address.
pub fn websocket_endpoint(parts: &EndpointParts) -> (address: Result<String, String>)
    ensures
        match address {
            Ok(text) => socket_address(parts@) == Ok::<Seq<char>, Seq<char>>(text@),
            Err(error) => socket_address(parts@) == Err::<Seq<char>, Seq<char>>(error@),
        },
{
    let secure = parts.scheme == String::from_str("https");
    let protocol = if secure {
        "wss://"
    } else {
        "ws://"
    };
    match &parts.host {
        None => Err(String::from_str("No host found in URL")),
        Some(host) => {
            let port: u16 = match parts.port {
                Some(port) => port,
                None => if secure {
                    443
                } else {
                    80
                },
            };
            let front = join(protocol, host.as_str());
            if port == 80 || port == 443 {
                Ok(front.concat("/ws"))
            } else {
                let number = decimal(port as u64);
                Ok(front.concat(":").concat(number.as_str()).concat("/ws"))
            }
        },
    }
}

/// The address of the socket of the server at `endpoint`, or why there is
/// none: the address cannot be read, or has no host.
pub open spec fn socket_of(endpoint: Seq<char>) -> Result<Seq<char>, Seq<char>> {
    match endpoint_parts(endpoint) {
        Ok(parts) => socket_address(
            EndpointPartsView { scheme: parts.0, host: parts.1, port: parts.2 },
        ),
        Err(error) => Err("Invalid URL: "@ + error),
    }
}

/// Turns the address of a server into the address of its socket.
pub fn convert_to_websocket(endpoint: &str) -> (address: Result<String, String>)
    ensures
        match address {
            Ok(text) => socket_of(endpoint@) == Ok::<Seq<char>, Seq<char>>(text@),
            Err(error) => socket_of(endpoint@) == Err::<Seq<char>, Seq<char>>(error@),
        },
{
    match parse_endpoint(endpoint) {
        Ok(parts) => websocket_endpoint(&parts),
        Err(error) => Err(join("Invalid URL: ", error.as_str())),
    }
}

} // verus!
