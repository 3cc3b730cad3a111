//! Tests of the GGUF header, context sizing, parameters, streaming tokens,
//! model metadata, conversations, and messages.

use localm::context::{calculate_optimal_batch, pick_context_size, plan_context, CtxConfig};
use localm::conversation::{generate_title, Conversation};
use localm::gguf::{is_gguf_file, validate_header, GgufMetadata, ModelError, GGUF_MAGIC};
use localm::message::{clean_thinking_tags, Message, Role};
use localm::models::ModelInfo;
use localm::params::{sampler_plan, GenerationParams, SamplerPlan};
use localm::stream::StreamToken;

fn gguf_header(magic: u32, version: u32, tensors: u64, kvs: u64) -> Vec<u8> {
    let mut bytes = Vec::new();
    bytes.extend_from_slice(&magic.to_le_bytes());
    bytes.extend_from_slice(&version.to_le_bytes());
    bytes.extend_from_slice(&tensors.to_le_bytes());
    bytes.extend_from_slice(&kvs.to_le_bytes());
    bytes
}

#[test]
fn test_validate_gguf_valid() {
    let bytes = gguf_header(GGUF_MAGIC, 3, 10, 5);
    let metadata = validate_header(&bytes).unwrap();

    assert_eq!(metadata.version, 3);
    assert_eq!(metadata.tensor_count, 10);
    assert_eq!(metadata.metadata_kv_count, 5);
}

#[test]
fn test_validate_gguf_invalid_magic() {
    let bytes = gguf_header(0xDEADBEEF, 3, 10, 5);
    let result = validate_header(&bytes);
    assert!(matches!(result, Err(ModelError::InvalidMagic(0xDEADBEEF))));
}

#[test]
fn test_validate_gguf_file_too_small() {
    let bytes = GGUF_MAGIC.to_le_bytes().to_vec();
    let result = validate_header(&bytes);
    assert!(matches!(result, Err(ModelError::FileTooSmall)));
}

#[test]
fn test_validate_gguf_unsupported_version() {
    let bytes = gguf_header(GGUF_MAGIC, 7, 1, 1);
    let result = validate_header(&bytes);
    assert!(matches!(result, Err(ModelError::UnsupportedVersion(7))));
}

#[test]
fn test_is_gguf_file() {
    let bytes = gguf_header(GGUF_MAGIC, 3, 10, 5);
    assert!(is_gguf_file("model.gguf", &bytes));
    assert!(is_gguf_file("model.GGUF", &bytes));
}

#[test]
fn test_is_gguf_file_wrong_extension() {
    let bytes = gguf_header(GGUF_MAGIC, 3, 10, 5);
    assert!(!is_gguf_file("model.txt", &bytes));
    assert!(!is_gguf_file("model", &bytes));
}

#[test]
fn test_is_gguf_file_bad_header() {
    let bytes = gguf_header(0x11111111, 3, 10, 5);
    assert!(!is_gguf_file("model.gguf", &bytes));
}

#[test]
fn test_pick_context_size() {
    assert_eq!(pick_context_size(1000, 32768), 2048);
    assert_eq!(pick_context_size(3000, 32768), 4096);
    assert_eq!(pick_context_size(5000, 32768), 8192);
    assert_eq!(pick_context_size(10000, 32768), 16384);
}

#[test]
fn test_calculate_optimal_batch() {
    assert_eq!(calculate_optimal_batch(8192, 100), 2048);
    assert_eq!(calculate_optimal_batch(8192, 1000), 1024);
    assert_eq!(calculate_optimal_batch(8192, 3000), 512);
    assert_eq!(calculate_optimal_batch(8192, 5000), 256);
    assert_eq!(calculate_optimal_batch(512, 100), 512);
}

#[test]
fn test_context_reuse() {
    // A first generation builds a context; a second whose needs fit within
    // it reuses it without a rebuild.
    let first = plan_context(&None, 1000, 1024, 16384, 32768);
    assert!(!first.reuse);
    assert_eq!(first.config.n_ctx, 2048);
    assert_eq!(first.config.n_batch, 1024);

    let second = plan_context(&Some(first.config), 900, 1024, 16384, 32768);
    assert!(second.reuse);
    assert_eq!(second.config, first.config);
}

#[test]
fn test_context_rebuild() {
    // A second generation needing a larger context or batch rebuilds once.
    let first = plan_context(&None, 1000, 1024, 16384, 32768);
    assert!(!first.reuse);

    let second = plan_context(&Some(first.config), 4000, 4096, 16384, 32768);
    assert!(!second.reuse);
    assert_eq!(second.config.n_ctx, 8192);

    let third = plan_context(&Some(second.config), 100, 1024, 16384, 32768);
    // Needs batch 2048 for a tiny prompt; the stored context has 512.
    assert!(!third.reuse);
}

#[test]
fn test_generation_params_default() {
    let params = GenerationParams::default();
    assert_eq!(params.max_tokens, 4096);
    assert_eq!(params.max_context_size, 16384);
    assert_eq!(params.temperature_hundredths, 70);
}

#[test]
fn test_sampler_determinism() {
    // A fixed nonzero seed gives the same sampler whatever entropy the call
    // drew; a greedy request ignores the seed altogether.
    let mut params = GenerationParams::default();
    params.seed = 42;
    assert_eq!(sampler_plan(&params, 111), sampler_plan(&params, 999));

    let greedy = GenerationParams::fast();
    assert_eq!(sampler_plan(&greedy, 1), SamplerPlan::Greedy);
    assert_eq!(sampler_plan(&greedy, 2), SamplerPlan::Greedy);

    let mut fresh = GenerationParams::default();
    fresh.seed = 0;
    match sampler_plan(&fresh, 777) {
        SamplerPlan::Pipeline { seed, .. } => assert_eq!(seed, 777),
        _ => panic!("expected a sampling pipeline"),
    }
}

#[test]
fn test_stream_token_variants() {
    let token = StreamToken::Token("hello".to_string());
    assert!(token.is_token());
    assert!(!token.is_done());
    assert!(!token.is_error());
    assert_eq!(token.as_token(), Some("hello"));

    let done = StreamToken::Done;
    assert!(!done.is_token());
    assert!(done.is_done());
    assert!(!done.is_error());

    let error = StreamToken::Error("test error".to_string());
    assert!(!error.is_token());
    assert!(!error.is_done());
    assert!(error.is_error());
    assert_eq!(error.as_error(), Some("test error"));
}

#[test]
fn test_size_string() {
    let model_info = ModelInfo {
        path: "test.gguf".to_string(),
        filename: "test.gguf".to_string(),
        size_bytes: 1024,
        last_modified: 0,
    };

    assert_eq!(model_info.size_string(), "1.00 KB");

    let large_model = ModelInfo {
        path: "large.gguf".to_string(),
        filename: "large.gguf".to_string(),
        size_bytes: 1024 * 1024 * 1024 * 3,
        last_modified: 0,
    };

    assert!(large_model.size_string().contains("GB"));
}

#[test]
fn test_size_string_small() {
    let tiny = ModelInfo {
        path: "tiny.gguf".to_string(),
        filename: "tiny.gguf".to_string(),
        size_bytes: 123,
        last_modified: 0,
    };
    assert_eq!(tiny.size_string(), "123 B");
}

#[test]
fn test_title_generation() {
    let long_message = "a".repeat(100);
    let title = generate_title(&long_message);
    assert_eq!(title.len(), 53);
    assert!(title.ends_with("..."));

    let short_message = "Short";
    let title = generate_title(short_message);
    assert_eq!(title, "Short");
}

#[test]
fn test_conversation_creation() {
    let msg = Message::new(Role::User, "Hello, world!");
    let conv = Conversation::new(Some(msg));

    assert!(!conv.id.is_empty());
    assert_eq!(conv.id.len(), 36);
    assert_eq!(conv.title, "Hello, world!");
    assert_eq!(conv.messages.len(), 1);
    assert_eq!(conv.created_at, conv.updated_at);
}

#[test]
fn test_add_message() {
    let mut conv = Conversation::new(None);
    assert_eq!(conv.title, "New Conversation");

    let msg = Message::new(Role::User, "First message");
    conv.add_message(msg);

    assert_eq!(conv.title, "First message");
    assert_eq!(conv.messages.len(), 1);
    assert!(conv.updated_at >= conv.created_at);
}

#[test]
fn test_message_creation() {
    let msg = Message::new(Role::User, "Hello, world!");
    assert_eq!(msg.role, Role::User);
    assert_eq!(msg.content, "Hello, world!");
    assert!(msg.timestamp > 0);
}

#[test]
fn test_role_equality() {
    assert_eq!(Role::User, Role::User);
    assert_ne!(Role::User, Role::Assistant);
}

#[test]
fn test_clean_thinking_tags() {
    let raw = "<think>private</think>  The answer is 4.  ";
    assert_eq!(clean_thinking_tags(raw), "private  The answer is 4.");
    let tagged = "<thinking>hidden</thinking>visible";
    assert_eq!(clean_thinking_tags(tagged), "hiddenvisible");
}

#[test]
fn test_truncate_str() {
    assert_eq!(localm::truncate_str("hello", 3), "hel");
    assert_eq!(localm::truncate_str("hello", 10), "hello");
    // A two-byte character is never split: only 'a' fits in two bytes here.
    assert_eq!(localm::truncate_str("a\u{e9}b", 2), "a");
    assert_eq!(localm::truncate_str("a\u{e9}b", 3), "a\u{e9}");
}

#[test]
fn test_model_error_message() {
    let e = localm::gguf::ModelError::UnsupportedVersion(7);
    match localm::engine::EngineError::from_model_error(&e) {
        localm::engine::EngineError::ModelValidation(m) => {
            assert_eq!(m, "Unsupported GGUF version: 7");
        }
        _ => panic!("expected a validation error"),
    }
}

#[test]
fn test_gguf_metadata_equality() {
    let a = GgufMetadata { version: 2, tensor_count: 1, metadata_kv_count: 2 };
    let b = GgufMetadata { version: 2, tensor_count: 1, metadata_kv_count: 2 };
    assert_eq!(a, b);
}

#[test]
fn test_snap_context_size() {
    assert_eq!(localm::context::snap_context_size(2048), 2048);
    assert_eq!(localm::context::snap_context_size(5000), 4096);
    assert_eq!(localm::context::snap_context_size(7000), 8192);
    assert_eq!(localm::context::snap_context_size(1), 2048);
    assert_eq!(localm::context::snap_context_size(4_000_000_000), 131072);
}

#[test]
fn test_optimal_threads() {
    assert_eq!(localm::context::optimal_threads(16), 8);
    assert_eq!(localm::context::optimal_threads(2), 2);
    assert_eq!(localm::context::optimal_threads(64), 16);
}

#[test]
fn test_clean_generated_title() {
    let raw = "<think>naming</think>```\nA Short Title\n```";
    assert_eq!(localm::conversation::clean_generated_title(raw), "naming A Short Title");
    let long = "t".repeat(80);
    let cleaned = localm::conversation::clean_generated_title(&long);
    assert_eq!(cleaned.len(), 60);
    assert!(cleaned.ends_with("..."));
}

#[test]
fn test_fresh_seed_feeds_pipeline() {
    // A zero configured seed draws a fresh one at generation start.
    let mut params = GenerationParams::default();
    params.seed = 0;
    let drawn = localm::engine::rand_seed();
    match sampler_plan(&params, drawn) {
        SamplerPlan::Pipeline { seed, .. } => assert_eq!(seed, drawn),
        _ => panic!("expected a sampling pipeline"),
    }
}

#[test]
fn test_clean_generated_title_quotes() {
    let quoted = "\"A Quoted Title\"";
    assert_eq!(localm::conversation::clean_generated_title(quoted), "A Quoted Title");
    let tagged = "<thinking></thinking>\n'Final Title'";
    assert_eq!(localm::conversation::clean_generated_title(tagged), "Final Title");
}

#[test]
fn test_clean_thinking_tags_reflection() {
    let raw = "<r\u{e9}flexion>hidden</r\u{e9}flexion>visible</reflexion>";
    assert_eq!(clean_thinking_tags(raw), "hiddenvisible");
}
