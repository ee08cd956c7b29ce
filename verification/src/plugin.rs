use vstd::prelude::*;

verus! {

pub struct ClientConn;

impl ClientConn {
    /// Runs the whole plugin chain for a fresh connection.
    pub fn client_connect<T: ClientConnectPlugin>(
        &self,
        ctx: &mut ClientConnectContext<T>,
    ) -> (r: Result<(), ()>)
        ensures
            r is Ok,
    {
        Ok(())
    }
}

/// The entry of a plugin chain: the first plugin, wired to the chain's end.
pub struct ClientConnectContext<T: ClientConnectPlugin> {
    pub next_plugin: Plugin<T>,
}

impl<T: ClientConnectPlugin> ClientConnectContext<T> {
    pub fn new(plugin: T) -> (r: ClientConnectContext<T>)
        ensures
            r.next_plugin.this == plugin,
    {
        ClientConnectContext { next_plugin: Plugin { this: plugin, next: () } }
    }

    /// Each plugin calls the next plugin in the chain.
    pub fn next(&self, client: &mut ClientConn) -> (r: Result<(), ()>)
        ensures
            r is Ok,
    {
        self.next_plugin.client_connected(client)
    }
}

/// One link of a plugin chain: this plugin, then the rest.
#[derive(Debug)]
pub struct Plugin<T: ClientConnectPlugin, S: ClientConnectPlugin = ()> {
    pub this: T,
    pub next: S,
}

/// A plugin that reacts to a client connecting; reacting always succeeds.
pub trait ClientConnectPlugin {
    fn client_connected(&self, client: &mut ClientConn) -> (r: Result<(), ()>)
        ensures
            r is Ok,
    ;
}

impl ClientConnectPlugin for usize {
    fn client_connected(&self, client: &mut ClientConn) -> (r: Result<(), ()>) {
        Ok(())
    }
}

impl ClientConnectPlugin for () {
    fn client_connected(&self, client: &mut ClientConn) -> (r: Result<(), ()>) {
        Ok(())
    }
}

impl<T: ClientConnectPlugin, S: ClientConnectPlugin> ClientConnectPlugin for Plugin<S, T> {
    fn client_connected(&self, client: &mut ClientConn) -> (r: Result<(), ()>) {
        let _first = self.this.client_connected(client);
        let _second = self.next.client_connected(client);
        Ok(())
    }
}

} // verus!
