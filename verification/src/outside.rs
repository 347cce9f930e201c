//! Declarations of the outside types that the library carries through.
use vstd::prelude::*;

verus! {

/// The TypeSafe SDK's error type, carried through unchanged.
#[verifier::external_type_specification]
#[verifier::external_body]
pub struct ExJevError(jev_sdk::Error);

/// std's IO error type, carried through unchanged.
#[verifier::external_type_specification]
#[verifier::external_body]
pub struct ExIoError(std::io::Error);

/// dotenvy's error type, classified by the wrappers in `env`.
#[verifier::external_type_specification]
#[verifier::external_body]
pub struct ExDotenvError(dotenvy::Error);

/// serde_json's dynamic JSON value, carried through opaque.
#[verifier::external_type_specification]
#[verifier::external_body]
pub struct ExJsonValue(serde_json::Value);

/// serde_json's error type.
#[verifier::external_type_specification]
#[verifier::external_body]
pub struct ExJsonError(serde_json::Error);

/// The SDK's typed question, carried through opaque.
#[verifier::external_type_specification]
#[verifier::external_body]
pub struct ExQuestion(jev_sdk::Question);

/// The SDK's `list_models` response, carried through opaque.
#[verifier::external_type_specification]
#[verifier::external_body]
pub struct ExListModelsResponse(jev_sdk::ListModelsResponse);

/// The SDK's `system_one` response, carried through opaque.
#[verifier::external_type_specification]
#[verifier::external_body]
pub struct ExSystemOneResponse(jev_sdk::SystemOneResponse);

/// The SDK's API client, carried through opaque.
#[verifier::external_type_specification]
#[verifier::external_body]
pub struct ExTypeSafeClient(jev_sdk::TypeSafeClient);

/// The SDK's client builder, carried through opaque.
#[verifier::external_type_specification]
#[verifier::external_body]
pub struct ExClientBuilder(jev_sdk::ClientBuilder);

} // verus!
