//! Plain data carried between the session core, the transport layer and the
//! downstream collaborators: identities, error taxonomy, acknowledgement
//! reasons, bus outcomes and command filters.

use vstd::prelude::*;

verus! {

/// A resolved device identity, as the downstream bus attributes messages.
/// The session core only reads its registered name.
pub struct DeviceIdentity {
    pub name: String,
}

impl View for DeviceIdentity {
    type V = Seq<char>;

    open spec fn view(&self) -> Seq<char> {
        self.name@
    }
}

impl Clone for DeviceIdentity {
    fn clone(&self) -> (r: Self)
        ensures
            r == *self,
    {
        DeviceIdentity { name: self.name.clone() }
    }
}

/// Composite identifier of a session: application name plus authenticated
/// device name, used for correlation.
pub struct Id {
    pub app_id: String,
    pub device_id: String,
}

impl Id {
    pub fn new(app_id: String, device_id: String) -> (r: Id)
        ensures
            r.app_id == app_id,
            r.device_id == device_id,
    {
        Id { app_id, device_id }
    }
}

impl Clone for Id {
    fn clone(&self) -> (r: Self)
        ensures
            r == *self,
    {
        Id { app_id: self.app_id.clone(), device_id: self.device_id.clone() }
    }
}

/// Failures a publish can end with.
pub enum PublishError {
    /// The publish topic has a shape the grammar does not accept.
    TopicNameInvalid,
    /// Publishing as the requested proxied device was denied.
    NotAuthorized,
    /// The downstream bus signalled overload.
    QuotaExceeded,
    /// The downstream bus rejected the message.
    UnspecifiedError,
    /// A collaborator failed in transport; the detail text travels along.
    InternalError(String),
}

/// Tri-state outcome the downstream bus reports for a forwarded publish.
pub enum PublishOutcome {
    Accepted,
    Rejected,
    QueueFull,
}

/// Definitive answer of the external authorizer to an "act as" request.
pub enum GatewayOutcome {
    /// Access granted, acting as the carried device identity.
    Pass(DeviceIdentity),
    /// Any other definitive answer: not authorized.
    Other,
}

/// Protocol quality-of-service levels; inbox subscriptions are acknowledged
/// at the lowest one.
pub enum QoS {
    AtMostOnce,
    AtLeastOnce,
    ExactlyOnce,
}

/// Per-entry acknowledgement of a subscribe request.
pub enum SubscribeAck {
    Granted(QoS),
    SubscriptionIdentifiersNotSupported,
    UnspecifiedError,
}

/// Per-entry acknowledgement of an unsubscribe request.
pub enum UnsubscribeAck {
    Success,
    NoSubscriptionExisted,
}

/// Scope a live inbox subscription matches commands against.
pub enum CommandFilter {
    /// All commands under the application/device pair, any proxied device.
    Wildcard { app_id: String, device_id: String },
    /// Commands addressed to the authenticated device itself.
    Device { app_id: String, device_id: String },
    /// Commands addressed to one exact proxied device.
    ProxiedDevice { app_id: String, device_id: String, name: String },
}

/// Mathematical shape of a `CommandFilter`.
pub enum CommandFilterShape {
    Wildcard { app_id: Seq<char>, device_id: Seq<char> },
    Device { app_id: Seq<char>, device_id: Seq<char> },
    ProxiedDevice { app_id: Seq<char>, device_id: Seq<char>, name: Seq<char> },
}

impl View for CommandFilter {
    type V = CommandFilterShape;

    open spec fn view(&self) -> CommandFilterShape {
        match self {
            CommandFilter::Wildcard { app_id, device_id } => CommandFilterShape::Wildcard {
                app_id: app_id@,
                device_id: device_id@,
            },
            CommandFilter::Device { app_id, device_id } => CommandFilterShape::Device {
                app_id: app_id@,
                device_id: device_id@,
            },
            CommandFilter::ProxiedDevice { app_id, device_id, name } => (
            CommandFilterShape::ProxiedDevice {
                app_id: app_id@,
                device_id: device_id@,
                name: name@,
            }),
        }
    }
}

impl Clone for CommandFilter {
    fn clone(&self) -> (r: Self)
        ensures
            r == *self,
    {
        match self {
            CommandFilter::Wildcard { app_id, device_id } => CommandFilter::Wildcard {
                app_id: app_id.clone(),
                device_id: device_id.clone(),
            },
            CommandFilter::Device { app_id, device_id } => CommandFilter::Device {
                app_id: app_id.clone(),
                device_id: device_id.clone(),
            },
            CommandFilter::ProxiedDevice { app_id, device_id, name } => (
            CommandFilter::ProxiedDevice {
                app_id: app_id.clone(),
                device_id: device_id.clone(),
                name: name.clone(),
            }),
        }
    }
}

impl CommandFilter {
    /// All commands under the application/device pair.
    pub fn wildcard(app_id: String, device_id: String) -> (r: Self)
        ensures
            r@ == (CommandFilterShape::Wildcard { app_id: app_id@, device_id: device_id@ }),
    {
        CommandFilter::Wildcard { app_id, device_id }
    }

    /// Commands for the authenticated device only.
    pub fn device(app_id: String, device_id: String) -> (r: Self)
        ensures
            r@ == (CommandFilterShape::Device { app_id: app_id@, device_id: device_id@ }),
    {
        CommandFilter::Device { app_id, device_id }
    }

    /// Commands proxied for one exact device name.
    pub fn proxied_device(app_id: String, device_id: String, name: String) -> (r: Self)
        ensures
            r@ == (CommandFilterShape::ProxiedDevice {
                app_id: app_id@,
                device_id: device_id@,
                name: name@,
            }),
    {
        CommandFilter::ProxiedDevice { app_id, device_id, name }
    }
}

/// Address of a command message as the relay sees it: the owning application
/// and the device the command is addressed to.
pub struct CommandMessage {
    pub application: String,
    pub device: String,
}

/// Whether a relay created for `filter` (with the given force-device mode)
/// forwards a command addressed to `(application, device)`.
///
/// With `force_device` set the relay demands the exact proxied-device identity
/// its filter was created for; a broader scope match is not enough.
pub open spec fn spec_command_matches(
    filter: CommandFilterShape,
    force_device: bool,
    application: Seq<char>,
    device: Seq<char>,
) -> bool {
    if force_device {
        filter matches CommandFilterShape::ProxiedDevice { app_id, name, .. }
            && application == app_id && device == name
    } else {
        match filter {
            CommandFilterShape::Wildcard { app_id, .. } => application == app_id,
            CommandFilterShape::Device { app_id, device_id } => application == app_id && device
                == device_id,
            CommandFilterShape::ProxiedDevice { app_id, name, .. } => application == app_id
                && device == name,
        }
    }
}

/// View of an optional owned string.
pub open spec fn opt_string_view(o: Option<String>) -> Option<Seq<char>> {
    match o {
        Some(s) => Some(s@),
        None => None,
    }
}

} // verus!
