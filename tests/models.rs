use editoast::error::InternalError;
use editoast::projects::Tags;
use editoast::rolling_stock::{
    assert_rolling_stock_unlocked, RollingStock, RollingStockError, RollingStockIdParam, RollingStockKey,
    RollingStockNameParam,
};
use editoast::timetable::InfraIdQueryParam;

#[test]
fn tags_drop_absent_values() {
    let tags = Tags::from_stored(vec![Some("a".to_string()), None, Some("b".to_string())]);
    assert_eq!(tags.to_stored(), vec![Some("a".to_string()), Some("b".to_string())]);
}

#[test]
fn tags_new_keeps_values() {
    let tags = Tags::new(vec!["x".to_string(), "y".to_string()]);
    assert_eq!(tags.to_stored(), vec![Some("x".to_string()), Some("y".to_string())]);
}

#[test]
fn locked_rolling_stock_is_refused() {
    let rs = RollingStock { id: 12, name: "fast".to_string(), locked: true };
    let err = assert_rolling_stock_unlocked(&rs).unwrap_err();
    assert!(matches!(err, RollingStockError::RollingStockIsLocked { rolling_stock_id: 12 }));
    assert_eq!(err.get_status(), 400);
    let rs = RollingStock { id: 12, name: "fast".to_string(), locked: false };
    assert!(assert_rolling_stock_unlocked(&rs).is_ok());
}

#[test]
fn rolling_stock_error_statuses() {
    assert_eq!(RollingStockError::CannotReadImage.get_status(), 500);
    assert_eq!(RollingStockError::CannotCreateCompoundImage.get_status(), 500);
    assert_eq!(RollingStockError::KeyNotFound { rolling_stock_key: RollingStockKey::Id(1) }.get_status(), 404);
    assert_eq!(
        RollingStockError::KeyNotFound { rolling_stock_key: RollingStockKey::Name("n".to_string()) }.get_status(),
        404
    );
    assert_eq!(RollingStockError::NameAlreadyUsed { name: "n".to_string() }.get_status(), 400);
    assert_eq!(RollingStockError::RollingStockIsUsed { rolling_stock_id: 1, usage: vec![] }.get_status(), 409);
    assert_eq!(RollingStockError::BasePowerClassEmpty.get_status(), 400);
}

#[test]
fn params_hold_their_values() {
    assert_eq!(RollingStockIdParam { rolling_stock_id: 3 }.rolling_stock_id, 3);
    assert_eq!(RollingStockNameParam { rolling_stock_name: "n".to_string() }.rolling_stock_name, "n");
    assert_eq!(InfraIdQueryParam::default().infra_id, 0);
}

#[test]
fn internal_error_context_replaces_a_key() {
    let mut e = InternalError { status: 500, error_type: "editoast:x".to_string(), context: vec![], message: "m".to_string() };
    e.set_status(404);
    assert_eq!(e.get_status(), 404);
    assert_eq!(e.get_type(), "editoast:x");
    let e = e.with_context("a", "1".to_string()).with_context("b", "2".to_string()).with_context("a", "3".to_string());
    let pairs: Vec<(String, String)> = e.get_context().iter().map(|c| (c.key.clone(), c.value.clone())).collect();
    assert_eq!(pairs, vec![("a".to_string(), "3".to_string()), ("b".to_string(), "2".to_string())]);
    assert_eq!(e.message, "m");
}
