//! Applications on a receiver: identifiers and the endpoint description.

use vstd::prelude::*;
use vstd::string::{StringExecFns, StrSliceExecFns};
use crate::namespace::{str_eq, NamespaceUrn, UrnModel};

verus! {

/// A well-known application identifier, or any other identifier verbatim.
#[derive(Clone, Debug)]
pub enum AppId {
    DefaultMediaReceiver,
    Backdrop,
    YouTube,
    Custom(String),
}

/// Mathematical image of an [`AppId`].
pub enum AppIdModel {
    DefaultMediaReceiver,
    Backdrop,
    YouTube,
    Custom(Seq<char>),
}

impl View for AppId {
    type V = AppIdModel;

    open spec fn view(&self) -> AppIdModel {
        match self {
            AppId::DefaultMediaReceiver => AppIdModel::DefaultMediaReceiver,
            AppId::Backdrop => AppIdModel::Backdrop,
            AppId::YouTube => AppIdModel::YouTube,
            AppId::Custom(s) => AppIdModel::Custom(s@),
        }
    }
}

pub open spec fn default_media_receiver_id() -> Seq<char> {
    "CC1AD845"@
}

pub open spec fn backdrop_id() -> Seq<char> {
    "E8C28D3C"@
}

pub open spec fn youtube_id() -> Seq<char> {
    "233637DE"@
}

/// The identifier text of an application.
pub open spec fn spec_app_id_text(m: AppIdModel) -> Seq<char> {
    match m {
        AppIdModel::DefaultMediaReceiver => default_media_receiver_id(),
        AppIdModel::Backdrop => backdrop_id(),
        AppIdModel::YouTube => youtube_id(),
        AppIdModel::Custom(s) => s,
    }
}

/// The application an identifier text denotes: a known one, else custom.
pub open spec fn spec_parse_app_id(s: Seq<char>) -> AppIdModel {
    if s == default_media_receiver_id() {
        AppIdModel::DefaultMediaReceiver
    } else if s == backdrop_id() {
        AppIdModel::Backdrop
    } else if s == youtube_id() {
        AppIdModel::YouTube
    } else {
        AppIdModel::Custom(s)
    }
}

/// A well-formed identifier never hides a known id in the custom case.
pub open spec fn app_id_wf(m: AppIdModel) -> bool {
    m matches AppIdModel::Custom(s) ==> s != default_media_receiver_id() && s != backdrop_id()
        && s != youtube_id()
}

/// Parses an identifier text, exactly as [`spec_parse_app_id`] does.
pub fn parse_app_id(s: &str) -> (r: AppId)
    ensures
        r@ == spec_parse_app_id(s@),
        app_id_wf(r@),
{
    if str_eq(s, "CC1AD845") {
        AppId::DefaultMediaReceiver
    } else if str_eq(s, "E8C28D3C") {
        AppId::Backdrop
    } else if str_eq(s, "233637DE") {
        AppId::YouTube
    } else {
        AppId::Custom(s.to_owned())
    }
}

impl AppId {
    /// The identifier text this application is written as on the wire.
    pub fn id_text(&self) -> (r: String)
        ensures
            r@ == spec_app_id_text(self@),
    {
        match self {
            AppId::DefaultMediaReceiver => String::from_str("CC1AD845"),
            AppId::Backdrop => String::from_str("E8C28D3C"),
            AppId::YouTube => String::from_str("233637DE"),
            AppId::Custom(s) => s.clone(),
        }
    }

    /// A copy of this identifier denoting the same text.
    pub fn duplicate(&self) -> (r: AppId)
        ensures
            r@ == self@,
    {
        match self {
            AppId::DefaultMediaReceiver => AppId::DefaultMediaReceiver,
            AppId::Backdrop => AppId::Backdrop,
            AppId::YouTube => AppId::YouTube,
            AppId::Custom(s) => AppId::Custom(s.clone()),
        }
    }

    /// Compares two identifiers; equal identifiers denote the same text.
    pub fn same_as(&self, other: &AppId) -> (r: bool)
        ensures
            r == (self@ == other@),
    {
        match (self, other) {
            (AppId::DefaultMediaReceiver, AppId::DefaultMediaReceiver) => true,
            (AppId::Backdrop, AppId::Backdrop) => true,
            (AppId::YouTube, AppId::YouTube) => true,
            (AppId::Custom(a), AppId::Custom(b)) => str_eq(a.as_str(), b.as_str()),
            _ => false,
        }
    }
}

/// Listing each identifier's text and parsing it back: the two maps are
/// mutually inverse on well-formed identifiers.
pub proof fn lemma_app_id_roundtrip(m: AppIdModel)
    requires
        app_id_wf(m),
    ensures
        spec_parse_app_id(spec_app_id_text(m)) == m,
{
    broadcast use vstd::string::group_string_axioms;

    reveal_strlit("CC1AD845");
    reveal_strlit("E8C28D3C");
    reveal_strlit("233637DE");
    assert(default_media_receiver_id()[0] != backdrop_id()[0]);
    assert(default_media_receiver_id()[0] != youtube_id()[0]);
    assert(backdrop_id()[0] != youtube_id()[0]);
}

/// Mathematical image of an [`App`].
pub struct AppModel {
    pub app_id: AppIdModel,
    pub app_type: Seq<char>,
    pub display_name: Seq<char>,
    pub icon_url: Seq<char>,
    pub is_idle_screen: bool,
    pub launched_from_cloud: bool,
    pub namespaces: Seq<UrnModel>,
    pub session_id: Seq<char>,
    pub status_text: Seq<char>,
    pub transport_id: Seq<char>,
    pub universal_app_id: Seq<char>,
}

/// One application as the receiver reports it: its identifier, the transport
/// id of its virtual channel, and the namespaces it accepts.
#[derive(Clone, Debug)]
pub struct App {
    pub app_id: AppId,
    pub app_type: String,
    pub display_name: String,
    pub icon_url: String,
    pub is_idle_screen: bool,
    pub launched_from_cloud: bool,
    pub namespaces: Vec<NamespaceUrn>,
    pub session_id: String,
    pub status_text: String,
    pub transport_id: String,
    pub universal_app_id: String,
}

/// The namespaces a sequence of namespace values denotes.
pub open spec fn urns(v: Seq<NamespaceUrn>) -> Seq<UrnModel> {
    Seq::new(v.len(), |i: int| v[i]@)
}

impl View for App {
    type V = AppModel;

    open spec fn view(&self) -> AppModel {
        AppModel {
            app_id: self.app_id@,
            app_type: self.app_type@,
            display_name: self.display_name@,
            icon_url: self.icon_url@,
            is_idle_screen: self.is_idle_screen,
            launched_from_cloud: self.launched_from_cloud,
            namespaces: urns(self.namespaces@),
            session_id: self.session_id@,
            status_text: self.status_text@,
            transport_id: self.transport_id@,
            universal_app_id: self.universal_app_id@,
        }
    }
}

/// The transport id of the receiver platform itself.
pub open spec fn platform_transport_id() -> Seq<char> {
    "receiver-0"@
}

/// The namespaces the platform endpoint accepts.
pub open spec fn platform_namespaces() -> Seq<UrnModel> {
    seq![
        UrnModel::Connection,
        UrnModel::Heartbeat,
        UrnModel::Receiver,
        UrnModel::DeviceAuth,
    ]
}

impl App {
    /// A copy of this application record denoting the same values.
    pub fn duplicate(&self) -> (r: App)
        ensures
            r@ == self@,
    {
        let mut namespaces: Vec<NamespaceUrn> = Vec::new();
        let mut i: usize = 0;
        while i < self.namespaces.len()
            invariant
                i <= self.namespaces@.len(),
                namespaces@.len() == i,
                forall|k: int| 0 <= k < i ==> #[trigger] namespaces@[k]@ == self.namespaces@[k]@,
            decreases self.namespaces@.len() - i,
        {
            namespaces.push(self.namespaces[i].duplicate());
            i = i + 1;
        }
        proof {
            assert(urns(namespaces@) =~= urns(self.namespaces@));
        }
        App {
            app_id: self.app_id.duplicate(),
            app_type: self.app_type.clone(),
            display_name: self.display_name.clone(),
            icon_url: self.icon_url.clone(),
            is_idle_screen: self.is_idle_screen,
            launched_from_cloud: self.launched_from_cloud,
            namespaces,
            session_id: self.session_id.clone(),
            status_text: self.status_text.clone(),
            transport_id: self.transport_id.clone(),
            universal_app_id: self.universal_app_id.clone(),
        }
    }

    /// The platform endpoint: transport id `receiver-0`, permitted to use the
    /// connection, heartbeat, receiver-control and device-auth namespaces.
    pub fn receiver() -> (r: App)
        ensures
            r@.transport_id == platform_transport_id(),
            r@.namespaces == platform_namespaces(),
            r@.app_id == AppIdModel::DefaultMediaReceiver,
    {
        let mut namespaces: Vec<NamespaceUrn> = Vec::new();
        namespaces.push(NamespaceUrn::Connection);
        namespaces.push(NamespaceUrn::Heartbeat);
        namespaces.push(NamespaceUrn::Receiver);
        namespaces.push(NamespaceUrn::DeviceAuth);
        proof {
            assert(urns(namespaces@) =~= platform_namespaces());
        }
        App {
            app_id: AppId::DefaultMediaReceiver,
            app_type: String::new(),
            display_name: String::new(),
            icon_url: String::new(),
            is_idle_screen: false,
            launched_from_cloud: false,
            namespaces,
            session_id: String::new(),
            status_text: String::new(),
            transport_id: String::from_str("receiver-0"),
            universal_app_id: String::new(),
        }
    }
}

} // verus!
