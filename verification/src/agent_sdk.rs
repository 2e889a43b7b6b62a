//! The plugin SDK: what a plugin advertises to the agent over its lifecycle
//! RPC — registration, initialisation and finalisation — and the container a
//! plugin author registers handlers with.
//!
//! Only the registration bookkeeping and the error mapping live here; the
//! inter-process transport around them is an external collaborator.

use vstd::prelude::*;

verus! {

/// A failure inside a plugin, described for the agent.
#[derive(Debug)]
pub struct PluginError {
    pub msg: String,
}

impl PluginError {
    /// The full message, with its context prefix.
    pub fn message(&self) -> (r: String)
        ensures
            r@ == "plugin error: "@ + self.msg@,
    {
        let r = "plugin error: ".to_owned();
        r.concat(self.msg.as_str())
    }
}

/// What a plugin supports: which lifecycle hooks it registered.
#[derive(Debug)]
pub struct RegistrationResponseModel {
    pub lifecycle_initialize: bool,
    pub lifecycle_finalize: bool,
}

#[derive(Debug)]
pub struct InitializationModel {}

#[derive(Debug)]
pub struct InitializationResponseModel {}

#[derive(Debug)]
pub struct FinalizationModel {}

#[derive(Debug)]
pub struct FinalizationResponseModel {}

struct AgentPluginImpl<FI, FF> {
    initialization: Option<FI>,
    finalization: Option<FF>,
}

/// A plugin under construction: its identifier and the lifecycle handlers
/// registered so far.  The RPC transport serving it is outside this crate.
pub struct JarvisAgentPluginContainer<FI, FF> {
    id: String,
    plugin_impl: AgentPluginImpl<FI, FF>,
}

impl<FI, FF> JarvisAgentPluginContainer<FI, FF> {
    /// The plugin's identifier.
    pub closed spec fn plugin_id(&self) -> Seq<char> {
        self.id@
    }

    /// Whether an initialisation handler is registered.
    pub closed spec fn has_initialize(&self) -> bool {
        self.plugin_impl.initialization is Some
    }

    /// Whether a finalisation handler is registered.
    pub closed spec fn has_finalize(&self) -> bool {
        self.plugin_impl.finalization is Some
    }

    /// A fresh container for the plugin `id`, with no handlers yet.
    pub fn new(id: String) -> (r: Self)
        ensures
            r.plugin_id() == id@,
            !r.has_initialize(),
            !r.has_finalize(),
    {
        JarvisAgentPluginContainer {
            id,
            plugin_impl: AgentPluginImpl { initialization: None, finalization: None },
        }
    }

    /// Registers the initialisation handler.
    pub fn add_initialize(&mut self, f: FI)
        ensures
            final(self).has_initialize(),
            final(self).has_finalize() == old(self).has_finalize(),
            final(self).plugin_id() == old(self).plugin_id(),
    {
        self.plugin_impl.initialization = Some(f);
    }

    /// Registers the finalisation handler.
    pub fn add_finalize(&mut self, f: FF)
        ensures
            final(self).has_finalize(),
            final(self).has_initialize() == old(self).has_initialize(),
            final(self).plugin_id() == old(self).plugin_id(),
    {
        self.plugin_impl.finalization = Some(f);
    }

    /// What the plugin reports when the agent asks it to register: exactly
    /// the lifecycle hooks it has handlers for.
    pub fn register(&self) -> (r: RegistrationResponseModel)
        ensures
            r.lifecycle_initialize == self.has_initialize(),
            r.lifecycle_finalize == self.has_finalize(),
    {
        RegistrationResponseModel {
            lifecycle_initialize: match self.plugin_impl.initialization {
                Some(_) => true,
                None => false,
            },
            lifecycle_finalize: match self.plugin_impl.finalization {
                Some(_) => true,
                None => false,
            },
        }
    }

    /// The initialisation handler, for the transport to invoke.
    pub fn initialization_handler(&self) -> (r: Option<&FI>)
        ensures
            r is Some <==> self.has_initialize(),
    {
        match self.plugin_impl.initialization {
            Some(ref f) => Some(f),
            None => None,
        }
    }

    /// The finalisation handler, for the transport to invoke.
    pub fn finalization_handler(&self) -> (r: Option<&FF>)
        ensures
            r is Some <==> self.has_finalize(),
    {
        match self.plugin_impl.finalization {
            Some(ref f) => Some(f),
            None => None,
        }
    }

    /// The name of the local pipe the plugin serves its RPC on.
    pub fn pipe_path(&self) -> (r: String)
        ensures
            r@ == "\\\\.\\pipe\\"@ + self.plugin_id(),
    {
        let r = "\\\\.\\pipe\\".to_owned();
        r.concat(self.id.as_str())
    }
}

/// How a plugin's lifecycle outcome crosses the RPC boundary: a server error
/// code and the message to carry.
#[derive(Debug)]
pub struct RpcFailure {
    pub server_error_code: i64,
    pub message: String,
}

/// Maps a handler's outcome for the RPC layer: a handler failure becomes a
/// server error with code zero carrying the plugin error's message.
pub fn map_result_for_json_rpc<T>(result: Result<T, PluginError>) -> (r: Result<T, RpcFailure>)
    ensures
        result is Ok <==> r is Ok,
        result matches Err(e) ==> (r matches Err(f) && f.server_error_code == 0 && f.message@
            == "plugin error: "@ + e.msg@),
{
    match result {
        Ok(response) => Ok(response),
        Err(e) => {
            let message = e.message();
            Err(RpcFailure { server_error_code: 0, message })
        },
    }
}

/// The RPC answer for a lifecycle hook the plugin never registered: a server
/// error with code one.
pub fn make_not_implemented_error<T>() -> (r: Result<T, RpcFailure>)
    ensures
        r matches Err(f) && f.server_error_code == 1 && f.message@ == "Not implemented"@,
{
    Err(RpcFailure { server_error_code: 1, message: "Not implemented".to_owned() })
}

} // verus!
