//! Endpoint descriptions: where a service listens.

use std::convert::Infallible;
use std::str::FromStr;
use vstd::prelude::*;

verus! {

/// A Unix domain socket: its path, and the permission bits and ownership
/// that the socket file is to be given once it exists.
#[derive(Debug, Clone, PartialEq, Eq)]
pub struct UnixDomainSocket {
    pub path: String,
    pub mode: Option<u32>,
    pub owner: Option<String>,
    pub group: Option<String>,
}

/// Where a service listens: a network address, or a Unix domain socket.
#[derive(Debug, Clone, PartialEq, Eq)]
pub enum Endpoint {
    Inet(String),
    Unix(UnixDomainSocket),
}

/// What a `UnixDomainSocket` holds, as mathematical values.
pub struct UnixDomainSocketView {
    pub path: Seq<char>,
    pub mode: Option<u32>,
    pub owner: Option<Seq<char>>,
    pub group: Option<Seq<char>>,
}

/// What an `Endpoint` holds, as mathematical values.
pub enum EndpointView {
    Inet(Seq<char>),
    Unix(UnixDomainSocketView),
}

/// The characters of an optional string.
pub open spec fn optional_text(text: Option<String>) -> Option<Seq<char>> {
    match text {
        Some(text) => Some(text@),
        None => None,
    }
}

impl View for UnixDomainSocket {
    type V = UnixDomainSocketView;

    open spec fn view(&self) -> UnixDomainSocketView {
        UnixDomainSocketView {
            path: self.path@,
            mode: self.mode,
            owner: optional_text(self.owner),
            group: optional_text(self.group),
        }
    }
}

impl View for Endpoint {
    type V = EndpointView;

    open spec fn view(&self) -> EndpointView {
        match self {
            Endpoint::Inet(address) => EndpointView::Inet(address@),
            Endpoint::Unix(socket) => EndpointView::Unix(socket@),
        }
    }
}

/// The socket at `path` with no permission bits, owner or group set.
pub open spec fn bare_socket(path: Seq<char>) -> UnixDomainSocketView {
    UnixDomainSocketView { path, mode: None, owner: None, group: None }
}

/// Whether `address` names a path: whether it begins with the separator.
pub open spec fn is_path(address: Seq<char>) -> bool {
    address.len() > 0 && address[0] == '/'
}

/// The endpoint that an address string stands for: a socket path where it
/// begins with the path separator, a network address otherwise.
pub open spec fn endpoint_of(address: Seq<char>) -> EndpointView {
    if is_path(address) {
        EndpointView::Unix(bare_socket(address))
    } else {
        EndpointView::Inet(address)
    }
}

impl Default for UnixDomainSocket {
    fn default() -> (socket: Self)
        ensures
            socket@ == bare_socket(Seq::empty()),
    {
        UnixDomainSocket { path: String::new(), mode: None, owner: None, group: None }
    }
}

impl UnixDomainSocket {
    /// The socket at path `s`, with nothing else set. Never fails.
    pub fn from_str(s: &str) -> (parsed: Result<Self, Infallible>)
        ensures
            parsed matches Ok(socket) && socket@ == bare_socket(s@),
    {
        Ok(UnixDomainSocket { path: s.to_owned(), mode: None, owner: None, group: None })
    }
}

impl Endpoint {
    /// Reads an address string. A leading path separator selects a Unix
    /// domain socket at exactly that path; any other string is kept unchanged
    /// as a network address, to be validated when it is bound. Never fails.
    pub fn from_str(s: &str) -> (parsed: Result<Self, Infallible>)
        ensures
            parsed matches Ok(endpoint) && endpoint@ == endpoint_of(s@),
            is_path(s@) ==> (parsed matches Ok(Endpoint::Unix(socket)) && socket@ == bare_socket(
                s@,
            )),
            !is_path(s@) ==> (parsed matches Ok(Endpoint::Inet(address)) && address@ == s@),
    {
        if !s.is_empty() && s.get_char(0) == '/' {
            Ok(Endpoint::Unix(UnixDomainSocket { path: s.to_owned(), mode: None, owner: None, group: None }))
        } else {
            Ok(Endpoint::Inet(s.to_owned()))
        }
    }
}

/// The shape in which an endpoint is written in a configuration: a bare
/// string, or a table that holds a socket's path with its settings.
#[derive(Debug, Clone, PartialEq, Eq)]
pub enum EndpointForm {
    Text(String),
    Table(UnixDomainSocket),
}

/// What an `EndpointForm` holds, as mathematical values.
pub enum EndpointFormView {
    Text(Seq<char>),
    Table(UnixDomainSocketView),
}

impl View for EndpointForm {
    type V = EndpointFormView;

    open spec fn view(&self) -> EndpointFormView {
        match self {
            EndpointForm::Text(text) => EndpointFormView::Text(text@),
            EndpointForm::Table(socket) => EndpointFormView::Table(socket@),
        }
    }
}

/// Whether a socket has neither permission bits nor owner nor group set.
pub open spec fn is_bare(socket: UnixDomainSocketView) -> bool {
    socket.mode is None && socket.owner is None && socket.group is None
}

/// The form in which an endpoint is written: a network address as its
/// string, a socket with nothing but a path as that path, any other socket as
/// a table.
pub open spec fn written_form(endpoint: EndpointView) -> EndpointFormView {
    match endpoint {
        EndpointView::Inet(address) => EndpointFormView::Text(address),
        EndpointView::Unix(socket) => if is_bare(socket) {
            EndpointFormView::Text(socket.path)
        } else {
            EndpointFormView::Table(socket)
        },
    }
}

/// The endpoint that a form stands for: a string is read as an address
/// string, a table is the socket it holds.
pub open spec fn read_form(form: EndpointFormView) -> EndpointView {
    match form {
        EndpointFormView::Text(text) => endpoint_of(text),
        EndpointFormView::Table(socket) => EndpointView::Unix(socket),
    }
}

/// Whether an endpoint is one that reading an address string or a table can
/// give: a network address does not begin with the path separator, and the
/// path of a socket with nothing else set does.
pub open spec fn is_canonical(endpoint: EndpointView) -> bool {
    match endpoint {
        EndpointView::Inet(address) => !is_path(address),
        EndpointView::Unix(socket) => is_bare(socket) ==> is_path(socket.path),
    }
}

/// Writing an endpoint and reading the form back gives the same endpoint,
/// for every endpoint that reading can give at all.
pub proof fn lemma_read_written_form(endpoint: EndpointView)
    requires
        is_canonical(endpoint),
    ensures
        read_form(written_form(endpoint)) == endpoint,
{
}

/// What reading an address string gives is always canonical.
pub proof fn lemma_parsed_is_canonical(address: Seq<char>)
    ensures
        is_canonical(endpoint_of(address)),
{
}

fn copy_optional(text: &Option<String>) -> (copy: Option<String>)
    ensures
        optional_text(copy) == optional_text(*text),
{
    match text {
        Some(text) => Some(text.clone()),
        None => None,
    }
}

impl UnixDomainSocket {
    /// A socket with the same path and settings.
    pub fn duplicate(&self) -> (copy: Self)
        ensures
            copy@ == self@,
    {
        UnixDomainSocket {
            path: self.path.clone(),
            mode: self.mode,
            owner: copy_optional(&self.owner),
            group: copy_optional(&self.group),
        }
    }
}

impl Endpoint {
    /// An endpoint with the same contents.
    pub fn duplicate(&self) -> (copy: Self)
        ensures
            copy@ == self@,
    {
        match self {
            Endpoint::Inet(address) => Endpoint::Inet(address.clone()),
            Endpoint::Unix(socket) => Endpoint::Unix(socket.duplicate()),
        }
    }

    /// The form in which this endpoint is written. A socket with no
    /// permission bits, owner or group collapses to its bare path.
    pub fn serialize(&self) -> (form: EndpointForm)
        ensures
            form@ == written_form(self@),
    {
        match self {
            Endpoint::Inet(address) => EndpointForm::Text(address.clone()),
            Endpoint::Unix(socket) => {
                if socket.mode.is_none() && socket.owner.is_none() && socket.group.is_none() {
                    EndpointForm::Text(socket.path.clone())
                } else {
                    EndpointForm::Table(socket.duplicate())
                }
            },
        }
    }

    /// The endpoint that `form` stands for.
    pub fn deserialize(form: EndpointForm) -> (endpoint: Self)
        ensures
            endpoint@ == read_form(form@),
    {
        match form {
            EndpointForm::Text(text) => {
                if !text.as_str().is_empty() && text.as_str().get_char(0) == '/' {
                    Endpoint::Unix(
                        UnixDomainSocket { path: text, mode: None, owner: None, group: None },
                    )
                } else {
                    Endpoint::Inet(text)
                }
            },
            EndpointForm::Table(socket) => Endpoint::Unix(socket),
        }
    }
}

impl FromStr for UnixDomainSocket {
    type Err = Infallible;

    /// The socket at path `s`, with nothing else set. Never fails.
    fn from_str(s: &str) -> (parsed: Result<Self, Infallible>)
        ensures
            parsed matches Ok(socket) && socket@ == bare_socket(s@),
    {
        UnixDomainSocket::from_str(s)
    }
}

impl FromStr for Endpoint {
    type Err = Infallible;

    /// Reads an address string: a socket path where it begins with the path
    /// separator, a network address kept unchanged otherwise. Never fails.
    fn from_str(s: &str) -> (parsed: Result<Self, Infallible>)
        ensures
            parsed matches Ok(endpoint) && endpoint@ == endpoint_of(s@),
    {
        Endpoint::from_str(s)
    }
}

} // verus!
