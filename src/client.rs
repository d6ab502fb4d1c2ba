//! Clients that talk to remote servers, and the transports they use.
use vstd::prelude::*;

use crate::error::CoreError;

verus! {

/// A channel that carries messages to and from a server.
pub trait Transport {
    /// Whether every send succeeds.
    spec fn spec_send_always_ok(&self) -> bool;

    /// Whether every receive succeeds with an empty message.
    spec fn spec_receives_empty(&self) -> bool;

    /// Sends `message`.
    fn send(&self, message: &str) -> (r: Result<(), CoreError>)
        ensures
            self.spec_send_always_ok() ==> r is Ok,
    ;

    /// Receives the next message.
    fn receive(&self) -> (r: Result<String, CoreError>)
        ensures
            self.spec_receives_empty() ==> (r matches Ok(m) && m@.len() == 0),
    ;
}

/// A transport that sends nothing and receives empty messages, for tests.
#[derive(Debug)]
pub struct MockTransport {
    auto_connect: bool,
}

impl MockTransport {
    /// A transport that does not connect by itself.
    pub fn new() -> (r: MockTransport)
        ensures
            !r.spec_auto_connect(),
            r.spec_send_always_ok(),
            r.spec_receives_empty(),
    {
        MockTransport { auto_connect: false }
    }

    /// A transport that connects by itself.
    pub fn new_auto_connect() -> (r: MockTransport)
        ensures
            r.spec_auto_connect(),
            r.spec_send_always_ok(),
            r.spec_receives_empty(),
    {
        MockTransport { auto_connect: true }
    }

    /// Whether the transport connects by itself.
    pub closed spec fn spec_auto_connect(&self) -> bool {
        self.auto_connect
    }

    /// Whether the transport connects by itself.
    pub fn auto_connect(&self) -> (r: bool)
        ensures
            r == self.spec_auto_connect(),
    {
        self.auto_connect
    }
}

impl Default for MockTransport {
    fn default() -> (r: MockTransport)
        ensures
            !r.spec_auto_connect(),
    {
        MockTransport::new()
    }
}

impl Transport for MockTransport {
    open spec fn spec_send_always_ok(&self) -> bool {
        true
    }

    open spec fn spec_receives_empty(&self) -> bool {
        true
    }

    fn send(&self, message: &str) -> Result<(), CoreError> {
        Ok(())
    }

    fn receive(&self) -> Result<String, CoreError> {
        Ok(String::new())
    }
}

/// A transport over standard input and output.
#[derive(Debug)]
pub struct StdioTransport;

impl StdioTransport {
    /// The standard input and output transport.
    pub fn new() -> StdioTransport {
        StdioTransport
    }
}

impl Default for StdioTransport {
    fn default() -> StdioTransport {
        StdioTransport
    }
}

impl Transport for StdioTransport {
    open spec fn spec_send_always_ok(&self) -> bool {
        true
    }

    open spec fn spec_receives_empty(&self) -> bool {
        true
    }

    fn send(&self, message: &str) -> Result<(), CoreError> {
        Ok(())
    }

    fn receive(&self) -> Result<String, CoreError> {
        Ok(String::new())
    }
}

/// A transport over a WebSocket.
#[derive(Debug)]
pub struct WebSocketTransport {
    url: String,
}

impl WebSocketTransport {
    /// A transport to `url`.
    pub fn new(url: &str) -> (r: WebSocketTransport)
        ensures
            r.spec_url()@ == url@,
    {
        WebSocketTransport { url: url.to_owned() }
    }

    /// The address the transport connects to.
    pub closed spec fn spec_url(&self) -> String {
        self.url
    }

    /// The address the transport connects to.
    pub fn url(&self) -> (r: &str)
        ensures
            r@ == self.spec_url()@,
    {
        self.url.as_str()
    }
}

impl Transport for WebSocketTransport {
    open spec fn spec_send_always_ok(&self) -> bool {
        true
    }

    open spec fn spec_receives_empty(&self) -> bool {
        true
    }

    fn send(&self, message: &str) -> Result<(), CoreError> {
        Ok(())
    }

    fn receive(&self) -> Result<String, CoreError> {
        Ok(String::new())
    }
}

/// A client over transport `T`.
#[derive(Debug)]
pub struct Client<T: Transport> {
    transport: T,
    initialized: bool,
}

impl<T: Transport> Client<T> {
    /// A client over `transport`; it is initialized from the start.
    pub fn new(transport: T) -> (r: Client<T>)
        ensures
            r.spec_initialized(),
            r.spec_transport() == transport,
    {
        Client { transport, initialized: true }
    }

    /// Whether the client is initialized.
    pub closed spec fn spec_initialized(&self) -> bool {
        self.initialized
    }

    /// The client's transport.
    pub closed spec fn spec_transport(&self) -> T {
        self.transport
    }

    /// Connects to the server; this never fails.
    pub fn connect(&self) -> (r: Result<(), CoreError>)
        ensures
            r is Ok,
    {
        Ok(())
    }

    /// Disconnects from the server; this never fails.
    pub fn disconnect(&self) -> (r: Result<(), CoreError>)
        ensures
            r is Ok,
    {
        Ok(())
    }

    /// Whether the client is initialized.
    pub fn is_initialized(&self) -> (r: bool)
        ensures
            r == self.spec_initialized(),
    {
        self.initialized
    }

    /// The client's transport.
    pub fn transport(&self) -> (r: &T)
        ensures
            *r == self.spec_transport(),
    {
        &self.transport
    }
}

/// A client for the library's servers, over transport `T`.
#[derive(Debug)]
pub struct McpClient<T: Transport> {
    client: Client<T>,
}

impl<T: Transport> McpClient<T> {
    /// A client over `transport`.
    pub fn new(transport: T) -> (r: McpClient<T>)
        ensures
            r.spec_client().spec_initialized(),
            r.spec_client().spec_transport() == transport,
    {
        McpClient { client: Client::new(transport) }
    }

    /// The underlying client.
    pub closed spec fn spec_client(&self) -> Client<T> {
        self.client
    }

    /// The underlying client.
    pub fn client(&self) -> (r: &Client<T>)
        ensures
            *r == self.spec_client(),
    {
        &self.client
    }

    /// Connects to the server; this never fails.
    pub fn connect(&self) -> (r: Result<(), CoreError>)
        ensures
            r is Ok,
    {
        self.client.connect()
    }

    /// Disconnects from the server; this never fails.
    pub fn disconnect(&self) -> (r: Result<(), CoreError>)
        ensures
            r is Ok,
    {
        self.client.disconnect()
    }
}

/// Makes clients with the available transports.
#[derive(Debug, Default)]
pub struct McpClientFactory;

impl McpClientFactory {
    /// A factory.
    pub fn new() -> McpClientFactory {
        McpClientFactory
    }

    /// A client for a server on standard input and output; it runs over the
    /// mock transport.
    pub fn create_stdio_client(&self) -> (r: McpClient<MockTransport>)
        ensures
            r.spec_client().spec_initialized(),
            !r.spec_client().spec_transport().spec_auto_connect(),
    {
        McpClient::new(MockTransport::new())
    }

    /// A client for a server at `url`; it runs over the mock transport.
    pub fn create_websocket_client(&self, url: &str) -> (r: McpClient<MockTransport>)
        ensures
            r.spec_client().spec_initialized(),
            !r.spec_client().spec_transport().spec_auto_connect(),
    {
        McpClient::new(MockTransport::new())
    }
}

} // verus!
