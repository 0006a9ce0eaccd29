use my_little_factory_manager::types::{TokenTag, TokenType};

#[test]
fn beneficial_tokens_have_beneficial_tag() {
    let beneficial = vec![
        TokenType::ProductionUnit,
        TokenType::Energy,
        TokenType::QualityPoint,
        TokenType::Innovation,
    ];
    for token in &beneficial {
        let tags = token.tags();
        assert!(
            tags.contains(&TokenTag::Beneficial),
            "{token:?} should have Beneficial tag"
        );
    }
}

#[test]
fn harmful_tokens_have_harmful_tag() {
    let harmful = vec![TokenType::Heat, TokenType::Waste, TokenType::Pollution];
    for token in &harmful {
        let tags = token.tags();
        assert!(
            tags.contains(&TokenTag::Harmful),
            "{token:?} should have Harmful tag"
        );
    }
}

#[test]
fn progression_tokens_have_progression_tag() {
    let progression = vec![
        TokenType::ContractsTierCompleted(1),
        TokenType::ContractsTierCompleted(2),
        TokenType::ContractsTierCompleted(3),
        TokenType::ContractsTierCompleted(4),
        TokenType::ContractsTierCompleted(5),
        TokenType::DeckSlots,
    ];
    for token in &progression {
        let tags = token.tags();
        assert!(
            tags.contains(&TokenTag::Progression),
            "{token:?} should have Progression tag"
        );
    }
}

#[test]
fn every_token_type_has_at_least_one_tag() {
    let all_tokens = vec![
        TokenType::ProductionUnit,
        TokenType::Energy,
        TokenType::QualityPoint,
        TokenType::Innovation,
        TokenType::Heat,
        TokenType::Waste,
        TokenType::Pollution,
        TokenType::ContractsTierCompleted(0),
        TokenType::ContractsTierCompleted(1),
        TokenType::ContractsTierCompleted(2),
        TokenType::ContractsTierCompleted(3),
        TokenType::ContractsTierCompleted(4),
        TokenType::DeckSlots,
    ];
    for token in &all_tokens {
        assert!(!token.tags().is_empty(), "{token:?} should have at least one tag");
    }
}
