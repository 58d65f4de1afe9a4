use hypernova_core::ai_model::{AIModel, ModelMetadata};
use hypernova_core::context::Context;
use hypernova_core::contract::{ContractError, MethodType};
use hypernova_core::contract_storage::{MemoryKvStore, Storage};
use hypernova_core::token::Token;

fn test_context() -> Context<MemoryKvStore> {
    Context::new(
        "caller-1".to_string(),
        "contract-1".to_string(),
        3,
        1000,
        "txhash".to_string(),
        MemoryKvStore::new(),
        500,
    )
}

#[test]
fn token_tracks_balances() {
    let mut token = Token::new(
        "HyperNova".to_string(),
        "HNV".to_string(),
        8,
        1_000_000,
        "owner-1".to_string(),
    );
    assert_eq!(token.balance_of("owner-1".to_string()).unwrap(), 1_000_000);
    assert_eq!(token.balance_of("nobody".to_string()).unwrap(), 0);

    assert_eq!(token.transfer("alice".to_string(), 400).unwrap(), true);
    assert_eq!(token.balance_of("owner-1".to_string()).unwrap(), 999_600);
    assert_eq!(token.balance_of("alice".to_string()).unwrap(), 400);
    assert_eq!(token.total_supply, 1_000_000);
}

#[test]
fn token_rejects_overdraw() {
    let mut token = Token::new(
        "HyperNova".to_string(),
        "HNV".to_string(),
        8,
        10,
        "owner-1".to_string(),
    );
    let result = token.transfer("alice".to_string(), 11);
    assert!(matches!(result, Err(ContractError::InsufficientFunds(_))));
    assert_eq!(token.balance_of("owner-1".to_string()).unwrap(), 10);
}

#[test]
fn token_metadata_lists_methods() {
    let metadata = Token::metadata();
    assert_eq!(metadata.name, "HyperNova Token");
    assert_eq!(metadata.methods.len(), 2);
    assert_eq!(metadata.methods[0].name, "transfer");
    assert!(matches!(metadata.methods[0].method_type, MethodType::Execute));
    assert_eq!(metadata.methods[1].name, "balance_of");
    assert!(matches!(metadata.methods[1].method_type, MethodType::Query));
}

#[test]
fn context_meters_gas() {
    let mut ctx = test_context();
    assert!(ctx.is_owner());
    assert_eq!(ctx.remaining_gas(), 500);
    ctx.use_gas(200).unwrap();
    assert_eq!(ctx.remaining_gas(), 300);
    let over = ctx.use_gas(400);
    assert_eq!(over.unwrap_err(), "Out of gas");
    assert_eq!(ctx.remaining_gas(), 300);
    let overflow = ctx.use_gas(u64::MAX);
    assert_eq!(overflow.unwrap_err(), "Gas overflow");
}

fn test_model() -> AIModel {
    AIModel::new(
        "owner-1".to_string(),
        ModelMetadata {
            name: "classifier".to_string(),
            description: "a test model".to_string(),
            version: "1.0".to_string(),
            author: "owner-1".to_string(),
            created_at: 99,
            tags: vec!["vision".to_string()],
            license: "mit".to_string(),
        },
        "f".repeat(64),
        25,
    )
}

#[test]
fn model_access_is_purchased_and_expires() {
    let mut model = test_model();
    let ctx = test_context();
    assert!(!model.has_access("caller-1", 1000));
    model.purchase_access(&ctx, 500).unwrap();
    assert!(model.has_access("caller-1", 1000));
    assert!(model.check_access("caller-1".to_string(), 1499).unwrap());
    assert!(!model.check_access("caller-1".to_string(), 1500).unwrap());
    assert!(!model.has_access("someone-else", 1000));
}

#[test]
fn model_ratings_need_access_and_range() {
    let mut model = test_model();
    let ctx = test_context();
    assert!(matches!(
        model.rate_model(&ctx, 0),
        Err(ContractError::InvalidArgument(_))
    ));
    assert!(matches!(
        model.rate_model(&ctx, 6),
        Err(ContractError::InvalidArgument(_))
    ));
    assert!(matches!(
        model.rate_model(&ctx, 4),
        Err(ContractError::Unauthorized(_))
    ));
    model.purchase_access(&ctx, 500).unwrap();
    assert_eq!(model.rate_model(&ctx, 4).unwrap(), true);
    assert_eq!(model.ratings.len(), 1);
    assert_eq!(model.rate_model(&ctx, 5).unwrap(), true);
    assert_eq!(model.ratings.len(), 1);
    assert_eq!(model.ratings[0].1, 5);
}

#[test]
fn model_metadata_lists_methods() {
    let metadata = AIModel::metadata();
    assert_eq!(metadata.name, "HyperNova AI Model");
    assert_eq!(metadata.methods.len(), 4);
    assert_eq!(metadata.methods[0].name, "purchase_access");
    assert_eq!(metadata.methods[3].name, "check_access");
}

#[test]
fn kv_store_sets_gets_and_removes() {
    let mut store = MemoryKvStore::new();
    assert!(store.get(b"k").unwrap().is_none());
    assert_eq!(store.contains(b"k").unwrap(), false);
    store.set(b"k", b"v1").unwrap();
    store.set(b"k", b"v2").unwrap();
    assert_eq!(store.get(b"k").unwrap().unwrap(), b"v2".to_vec());
    assert_eq!(store.contains(b"k").unwrap(), true);
    store.remove(b"k").unwrap();
    assert!(store.get(b"k").unwrap().is_none());
    assert_eq!(store.contains(b"k").unwrap(), false);
}
