use price_tracker::error::Code;
use price_tracker::services::{alert_created, route_label, subscription_from_request, AlertResponse, Role, Subscription, SubscriptionRequest, SubscriptionType};

#[test]
fn subscription_channels() {
    assert_eq!(SubscriptionType::from_code(1), Some(SubscriptionType::Telegram));
    assert_eq!(SubscriptionType::from_code(2), Some(SubscriptionType::Email));
    assert_eq!(SubscriptionType::from_code(3), Some(SubscriptionType::Sms));
    assert_eq!(SubscriptionType::from_code(0), None);
    assert_eq!(SubscriptionType::from_code(4), None);
    assert_eq!(SubscriptionType::Telegram.topic(), format!("price-alerts-{:?}", SubscriptionType::Telegram));
    assert_eq!(SubscriptionType::Sms.topic(), "price-alerts-Sms");
}

#[test]
fn subscription_requests() {
    let req = SubscriptionRequest { subscription_type: 2, user_id: 5, enabled: true };
    assert_eq!(
        subscription_from_request(&req),
        Ok(Subscription { subscription_type: SubscriptionType::Email, user_id: 5, enabled: true })
    );
    let bad = subscription_from_request(&SubscriptionRequest { subscription_type: 9, user_id: 5, enabled: false }).unwrap_err();
    assert_eq!(bad.code, Code::Unknown);
    assert_eq!(bad.message, "subscription_type");
}

#[test]
fn roles_round_trip() {
    for role in [Role::User, Role::Admin] {
        assert_eq!(Role::from_value(role.value()), Some(role));
    }
    assert_eq!(Role::User.value(), 1);
    assert_eq!(Role::Admin.value(), 2);
    assert_eq!(Role::from_value(3), None);
}

#[test]
fn alerts_and_routes() {
    assert_eq!(alert_created(17), AlertResponse { success: true, alert_id: 17 });
    assert_eq!(route_label("MSK", "NYC"), "MSK-NYC");
    assert_eq!(route_label("", ""), "-");
}
