//! The application record in its untyped form: the identifier as its
//! literal text.

use vstd::prelude::*;
use vstd::string::StringExecFns;
use crate::namespace::NamespaceUrn;

verus! {

/// One application on a receiver, with its identifier kept as plain text.
#[derive(Clone, Debug)]
pub struct Application {
    pub app_id: String,
    pub app_type: String,
    pub display_name: String,
    pub icon_url: String,
    pub is_idle_screen: bool,
    pub launched_from_cloud: bool,
    pub namespaces: Vec<NamespaceUrn>,
    pub session_id: String,
    pub status_text: String,
    pub transport_id: String,
    pub universal_app_id: String,
}

impl Application {
    /// The platform endpoint in this untyped form.
    pub fn receiver() -> (r: Application)
        ensures
            r.transport_id@ == crate::app::platform_transport_id(),
            crate::app::urns(r.namespaces@) == crate::app::platform_namespaces(),
    {
        let mut namespaces: Vec<NamespaceUrn> = Vec::new();
        namespaces.push(NamespaceUrn::Connection);
        namespaces.push(NamespaceUrn::Heartbeat);
        namespaces.push(NamespaceUrn::Receiver);
        namespaces.push(NamespaceUrn::DeviceAuth);
        proof {
            assert(crate::app::urns(namespaces@) =~= crate::app::platform_namespaces());
        }
        Application {
            app_id: String::new(),
            app_type: String::new(),
            display_name: String::new(),
            icon_url: String::new(),
            is_idle_screen: false,
            launched_from_cloud: false,
            namespaces,
            session_id: String::new(),
            status_text: String::new(),
            transport_id: String::from_str("receiver-0"),
            universal_app_id: String::new(),
        }
    }
}

} // verus!
