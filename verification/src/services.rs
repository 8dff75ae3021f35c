//! The gRPC messages of the services, the records they store, and the
//! decisions of the auth and tracking services.
use vstd::prelude::*;
use crate::error::{Code, Status};

verus! {

/// A login or registration request.
#[derive(Debug, Clone, PartialEq, Eq)]
pub struct AuthRequest {
    pub name: String,
    pub password: String,
}

/// The auth service's answer to a login or registration.
#[derive(Debug, Clone, PartialEq, Eq)]
pub struct AuthResponse {
    pub success: bool,
    pub token: String,
    pub user_id: i32,
}

/// The tracking service's answer to a new alert.
#[derive(Debug, Clone, Copy, PartialEq, Eq, Structural)]
pub struct AlertResponse {
    pub success: bool,
    pub alert_id: i32,
}

/// A request to switch a user's notification channel on or off; the channel
/// is given by its number.
#[derive(Debug, Clone, Copy, PartialEq, Eq, Structural)]
pub struct SubscriptionRequest {
    pub subscription_type: i32,
    pub user_id: i32,
    pub enabled: bool,
}

/// A notification channel.
#[derive(Debug, Clone, Copy, PartialEq, Eq, Structural)]
pub enum SubscriptionType {
    Telegram,
    Email,
    Sms,
}

/// A stored subscription.
#[derive(Debug, Clone, Copy, PartialEq, Eq, Structural)]
pub struct Subscription {
    pub subscription_type: SubscriptionType,
    pub user_id: i32,
    pub enabled: bool,
}

/// A user's role, stored as an integer.
#[derive(Debug, Clone, Copy, PartialEq, Eq, Structural)]
pub enum Role {
    User,
    Admin,
}

/// The number by which a role is stored.
pub open spec fn role_value(r: Role) -> i32 {
    match r {
        Role::User => 1,
        Role::Admin => 2,
    }
}

/// The role stored as `v`, if any.
pub open spec fn role_of(v: i32) -> Option<Role> {
    if v == 1 {
        Some(Role::User)
    } else if v == 2 {
        Some(Role::Admin)
    } else {
        None
    }
}

/// Storing a role and reading it back gives the same role.
pub proof fn law_role_roundtrip(r: Role)
    ensures
        role_of(role_value(r)) == Some(r),
{
}

impl Role {
    /// The number by which the role is stored.
    pub fn value(&self) -> (v: i32)
        ensures
            v == role_value(*self),
    {
        match self {
            Role::User => 1,
            Role::Admin => 2,
        }
    }

    /// The role stored as `v`, if any.
    pub fn from_value(v: i32) -> (r: Option<Role>)
        ensures
            r == role_of(v),
    {
        if v == 1 {
            Some(Role::User)
        } else if v == 2 {
            Some(Role::Admin)
        } else {
            None
        }
    }
}

/// The channel with the number `code` in a subscription request.
pub open spec fn subscription_type_of(code: i32) -> Option<SubscriptionType> {
    if code == 1 {
        Some(SubscriptionType::Telegram)
    } else if code == 2 {
        Some(SubscriptionType::Email)
    } else if code == 3 {
        Some(SubscriptionType::Sms)
    } else {
        None
    }
}

/// How the channel's name is written (its `Debug` form).
pub open spec fn subscription_type_name(t: SubscriptionType) -> Seq<char> {
    match t {
        SubscriptionType::Telegram => "Telegram"@,
        SubscriptionType::Email => "Email"@,
        SubscriptionType::Sms => "Sms"@,
    }
}

impl SubscriptionType {
    /// The channel with the number `code`: 1 Telegram, 2 Email, 3 Sms.
    pub fn from_code(code: i32) -> (res: Option<SubscriptionType>)
        ensures
            res == subscription_type_of(code),
    {
        if code == 1 {
            Some(SubscriptionType::Telegram)
        } else if code == 2 {
            Some(SubscriptionType::Email)
        } else if code == 3 {
            Some(SubscriptionType::Sms)
        } else {
            None
        }
    }

    /// The Kafka topic of the channel's notifications: `price-alerts-<name>`.
    pub fn topic(&self) -> (t: String)
        ensures
            t@ == "price-alerts-"@ + subscription_type_name(*self),
    {
        let mut t = "price-alerts-".to_owned();
        match self {
            SubscriptionType::Telegram => t.append("Telegram"),
            SubscriptionType::Email => t.append("Email"),
            SubscriptionType::Sms => t.append("Sms"),
        }
        t
    }
}

/// The subscription that a request stores, or the `Unknown` status with the
/// message `subscription_type` where the channel number is unknown.
pub fn subscription_from_request(request: &SubscriptionRequest) -> (res: Result<Subscription, Status>)
    ensures
        match subscription_type_of(request.subscription_type) {
            Some(t) => res == Ok::<Subscription, Status>(
                Subscription { subscription_type: t, user_id: request.user_id, enabled: request.enabled },
            ),
            None => res matches Err(s) && s.code == Code::Unknown && s.message@ == "subscription_type"@,
        },
{
    match SubscriptionType::from_code(request.subscription_type) {
        Some(t) => Ok(Subscription { subscription_type: t, user_id: request.user_id, enabled: request.enabled }),
        None => Err(Status { code: Code::Unknown, message: "subscription_type".to_owned() }),
    }
}

/// The answer to a new alert once it is stored under `alert_id`.
pub fn alert_created(alert_id: i32) -> (r: AlertResponse)
    ensures
        r == (AlertResponse { success: true, alert_id }),
{
    AlertResponse { success: true, alert_id }
}

/// The name of a route in price updates: `<from>-<to>`.
pub fn route_label(from: &str, to: &str) -> (label: String)
    ensures
        label@ == from@ + "-"@ + to@,
{
    let mut label = from.to_owned();
    label.append("-");
    label.append(to);
    label
}

} // verus!
