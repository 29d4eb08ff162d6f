use textsynth::completions::{self, Field as CField};
use textsynth::tokenize;
use textsynth::translate::{self, Field as TField};
use textsynth::IsEngine;

fn completion(prompt: Option<&str>) -> completions::RequestBuilder {
    let mut b = completions::RequestBuilder::new();
    b.prompt = prompt.map(|p| p.to_string());
    b
}

#[test]
fn n_of_twenty_is_rejected() {
    let b = completions::RequestBuilder::new()
        .prompt("Ninety-nine bottles".to_string())
        .temperature(0.0f64.to_bits())
        .stream(true)
        .n(20);
    match b.build() {
        Err(completions::BuildError::ValidationError(fs)) => assert_eq!(fs, vec![CField::N]),
        other => panic!("unexpected {:?}", other),
    }
}

#[test]
fn completion_ranges_accept_bounds() {
    let mut b = completion(Some("Hello"));
    b.n = Some(16);
    b.top_k = Some(1000);
    b.top_p = Some(1.0f64.to_bits());
    b.presence_penalty = Some((-2.0f64).to_bits());
    b.frequency_penalty = Some(2.0f64.to_bits());
    b.typical_p = Some(1.0f64.to_bits());
    b.temperature = Some(0.0f64.to_bits());
    assert!(b.validate().is_ok());
    let r = b.build().expect("valid request");
    assert_eq!(r.prompt, "Hello");
    assert_eq!(r.n, Some(16));
    assert_eq!(r.top_k, Some(1000));
}

#[test]
fn completion_reports_every_violation() {
    let mut b = completion(Some("Hello"));
    b.n = Some(0);
    b.top_k = Some(1001);
    b.top_p = Some(1.5f64.to_bits());
    b.presence_penalty = Some(2.5f64.to_bits());
    b.frequency_penalty = Some(f64::NAN.to_bits());
    b.typical_p = Some(0.0f64.to_bits());
    match b.validate() {
        Err(completions::BuildError::ValidationError(fs)) => assert_eq!(
            fs,
            vec![
                CField::N,
                CField::TopK,
                CField::TopP,
                CField::PresencePenalty,
                CField::FrequencyPenalty,
                CField::TypicalP
            ]
        ),
        other => panic!("unexpected {:?}", other),
    }
}

#[test]
fn float_edges() {
    let mut b = completion(Some("x"));
    b.top_p = Some((-0.0f64).to_bits());
    assert!(b.validate().is_ok());
    b.top_p = Some((-1e-300f64).to_bits());
    assert!(b.validate().is_err());
    b.top_p = None;
    b.typical_p = Some(1e-300f64.to_bits());
    assert!(b.validate().is_ok());
    b.typical_p = Some((-0.0f64).to_bits());
    assert!(b.validate().is_err());
    b.typical_p = None;
    b.presence_penalty = Some(f64::NEG_INFINITY.to_bits());
    assert!(b.validate().is_err());
    b.presence_penalty = Some((-1.999f64).to_bits());
    assert!(b.validate().is_ok());
}

#[test]
fn completion_needs_prompt() {
    match completion(None).build() {
        Err(completions::BuildError::UninitializedField(f)) => assert_eq!(f, CField::Prompt),
        other => panic!("unexpected {:?}", other),
    }
    let mut b = completion(None);
    b.top_k = Some(0);
    match b.build() {
        Err(completions::BuildError::ValidationError(fs)) => assert_eq!(fs, vec![CField::TopK]),
        other => panic!("unexpected {:?}", other),
    }
}

fn translation() -> translate::RequestBuilder {
    let mut b = translate::RequestBuilder::new();
    b.text = Some(vec!["Hello, world!".to_string()]);
    b.source_lang = Some("en".to_string());
    b.target_lang = Some("de".to_string());
    b
}

#[test]
fn translation_valid_and_auto() {
    let r = translation().build().expect("valid");
    assert_eq!(r.source_lang, "en");
    let mut b = translation();
    b.source_lang = Some("auto".to_string());
    b.target_lang = Some("deu".to_string());
    b.num_beams = Some(5);
    assert!(b.build().is_ok());
}

#[test]
fn translation_violations() {
    let mut b = translation();
    b.text = Some(vec![]);
    b.source_lang = Some("english".to_string());
    b.target_lang = Some("auto".to_string());
    b.num_beams = Some(6);
    match b.validate() {
        Err(translate::BuildError::ValidationError(fs)) => {
            assert_eq!(fs, vec![TField::Text, TField::SourceLang, TField::TargetLang, TField::NumBeams])
        }
        other => panic!("unexpected {:?}", other),
    }
    let mut b = translation();
    b.text = Some(vec!["t".to_string(); 65]);
    b.target_lang = Some("é".to_string());
    match b.validate() {
        Err(translate::BuildError::ValidationError(fs)) => assert_eq!(fs, vec![TField::Text]),
        other => panic!("unexpected {:?}", other),
    }
}

#[test]
fn translation_setters() {
    let r = translate::RequestBuilder::new()
        .text(vec!["Hello, world!".to_string()])
        .source_lang("en".to_string())
        .target_lang("de".to_string())
        .num_beams(3)
        .split_sentences(false)
        .build()
        .expect("valid");
    assert_eq!(r.text, vec!["Hello, world!".to_string()]);
    assert_eq!(r.target_lang, "de");
    assert_eq!(r.num_beams, Some(3));
    assert_eq!(r.split_sentences, Some(false));
}

#[test]
fn completion_setters() {
    let r = completions::RequestBuilder::new()
        .prompt("p".to_string())
        .max_tokens(16)
        .stop(vec!["x".to_string()])
        .top_k(40)
        .top_p(0.9f64.to_bits())
        .logit_bias(vec![("44986".to_string(), (-100.0f64).to_bits())])
        .presence_penalty(0.5f64.to_bits())
        .frequency_penalty(0.5f64.to_bits())
        .repetition_penalty(1.0f64.to_bits())
        .typical_p(1.0f64.to_bits())
        .build()
        .expect("valid");
    assert_eq!(r.max_tokens, Some(16));
    assert_eq!(r.top_k, Some(40));
    assert_eq!(r.top_p.map(f64::from_bits), Some(0.9));
    assert_eq!(r.stop, Some(vec!["x".to_string()]));
    assert_eq!(r.logit_bias.as_ref().map(|v| v.len()), Some(1));
}

#[test]
fn translation_missing_fields() {
    let mut b = translation();
    b.source_lang = None;
    match b.build() {
        Err(translate::BuildError::UninitializedField(f)) => assert_eq!(f, TField::SourceLang),
        other => panic!("unexpected {:?}", other),
    }
    let mut b = translation();
    b.target_lang = None;
    match b.build() {
        Err(translate::BuildError::UninitializedField(f)) => assert_eq!(f, TField::TargetLang),
        other => panic!("unexpected {:?}", other),
    }
    match translate::RequestBuilder::new().build() {
        Err(translate::BuildError::UninitializedField(f)) => assert_eq!(f, TField::Text),
        other => panic!("unexpected {:?}", other),
    }
}

#[test]
fn engine_identifiers() {
    assert_eq!(completions::Engine::GPTJ6B.id(), "gptj_6B");
    assert_eq!(completions::Engine::Boris6B.id(), "boris_6B");
    assert_eq!(completions::Engine::FairseqGPT13B.id(), "fairseq_gpt_13B");
    assert_eq!(completions::Engine::GPTNeoX20B.name(), "gptneox_20B");
    assert!(completions::Engine::GPTJ6B.is_completion());
    assert!(!completions::Engine::GPTJ6B.is_translation());
    assert_eq!(translate::Engine::M2M10012B.name(), "m2m100_1_2B");
    assert!(translate::Engine::M2M10012B.is_translation());
    assert!(!translate::Engine::M2M10012B.is_completion());
}

#[test]
fn tokenize_request_holds_text() {
    let r = tokenize::Request::new("The quick brown fox".to_string());
    assert_eq!(r.text, "The quick brown fox");
    let b = tokenize::RequestBuilder::default()
        .text("The quick brown fox jumps over the lazy dog".to_string())
        .build()
        .expect("request should build");
    assert_eq!(b.text, "The quick brown fox jumps over the lazy dog");
    assert_eq!(
        tokenize::RequestBuilder::default().build().err(),
        Some(tokenize::BuildError::UninitializedText)
    );
}

#[test]
fn default_builders_are_empty() {
    let c = completions::RequestBuilder::default();
    assert!(c.prompt.is_none() && c.n.is_none() && c.typical_p.is_none());
    let t = translate::RequestBuilder::default();
    assert!(t.text.is_none() && t.num_beams.is_none());
}

#[test]
fn stop_list_of_six_is_rejected() {
    let five: Vec<String> = (0..5).map(|i| format!("s{}", i)).collect();
    let b = completions::RequestBuilder::new().prompt("p".to_string()).stop(five);
    assert!(b.validate().is_ok());
    let six: Vec<String> = (0..6).map(|i| format!("s{}", i)).collect();
    let b = completions::RequestBuilder::new().prompt("p".to_string()).stop(six);
    match b.validate() {
        Err(completions::BuildError::ValidationError(fs)) => assert_eq!(fs, vec![CField::Stop]),
        other => panic!("unexpected {:?}", other),
    }
}

#[test]
fn logit_bias_out_of_range_is_rejected() {
    let ok = vec![
        ("44986".to_string(), (-100.0f64).to_bits()),
        ("1".to_string(), 100.0f64.to_bits()),
    ];
    let b = completions::RequestBuilder::new().prompt("p".to_string()).logit_bias(ok);
    assert!(b.validate().is_ok());
    let bad = vec![
        ("1".to_string(), 0.0f64.to_bits()),
        ("44986".to_string(), (-150.0f64).to_bits()),
    ];
    let b = completions::RequestBuilder::new()
        .prompt("p".to_string())
        .stop((0..6).map(|i| format!("s{}", i)).collect())
        .n(0)
        .logit_bias(bad);
    match b.build() {
        Err(completions::BuildError::ValidationError(fs)) => {
            assert_eq!(fs, vec![CField::Stop, CField::N, CField::LogitBias])
        }
        other => panic!("unexpected {:?}", other),
    }
    let nan = vec![("2".to_string(), f64::NAN.to_bits())];
    let b = completions::RequestBuilder::new().prompt("p".to_string()).logit_bias(nan);
    assert!(b.validate().is_err());
}
