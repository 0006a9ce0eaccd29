//! Combinatorial generator of card effect types.
//!
//! From the token definitions it builds, in order:
//! 1. for each token, a producer main and (except for the first token) a
//!    consumer/remover main;
//! 2. for each main, a self-consuming variation;
//! 3. for each pair (earlier token, later token), cross-token variations on
//!    the earlier token's mains, with the later token as output and as input.
//! The generated items are assigned `items_per_tier` per tier in that order.

use vstd::prelude::*;

use crate::config::{
    effect_types_view, token_defs_view, variations_view, CardEffectTypeConfig, CardEffectVariation,
    EffectTypeSpec, TierScalingFormula, TokenDefinitionConfig, TokenDefinitionSpec,
    TokenDefinitionsConfig, VariationSpec,
};
use crate::names::{token_name, token_name_with};
use crate::types::{CardTag, MainEffectDirection, TokenType, VariationDirection};

verus! {

/// For self-consuming variations, the secondary token direction is the
/// opposite of the main: producer self-consuming = input, consumer
/// self-consuming = output.
pub open spec fn spec_self_consuming_direction(d: MainEffectDirection) -> VariationDirection {
    match d {
        MainEffectDirection::Producer => VariationDirection::Input,
        MainEffectDirection::Consumer => VariationDirection::Output,
    }
}

pub fn self_consuming_variation_direction(main_dir: MainEffectDirection) -> (r: VariationDirection)
    ensures
        r == spec_self_consuming_direction(main_dir),
{
    match main_dir {
        MainEffectDirection::Producer => VariationDirection::Input,
        MainEffectDirection::Consumer => VariationDirection::Output,
    }
}

/// +1 when the secondary token boosts the primary amount (accepting harm or
/// sacrificing a beneficial input), -1 when it costs (removing harm or
/// getting extra beneficial output).
pub open spec fn spec_direction_sign(is_beneficial: bool, direction: VariationDirection) -> i8 {
    match (is_beneficial, direction) {
        (false, VariationDirection::Output) => 1i8,
        (true, VariationDirection::Input) => 1i8,
        (false, VariationDirection::Input) => -1i8,
        (true, VariationDirection::Output) => -1i8,
    }
}

pub fn compute_direction_sign(is_beneficial: bool, direction: VariationDirection) -> (r: i8)
    ensures
        r == spec_direction_sign(is_beneficial, direction),
{
    match (is_beneficial, direction) {
        (false, VariationDirection::Output) => 1,
        (true, VariationDirection::Input) => 1,
        (false, VariationDirection::Input) => -1,
        (true, VariationDirection::Output) => -1,
    }
}

/// An item of the generation queue.
pub enum GeneratedItem {
    Main {
        name: String,
        tags: Vec<CardTag>,
        primary_token: TokenType,
        direction: MainEffectDirection,
        formula: TierScalingFormula,
    },
    SelfConsuming {
        main_token: TokenType,
        main_direction: MainEffectDirection,
        secondary_token: TokenType,
        is_beneficial: bool,
    },
    CrossToken {
        main_token: TokenType,
        main_direction: MainEffectDirection,
        secondary_token: TokenType,
        variation_direction: VariationDirection,
        secondary_is_beneficial: bool,
    },
}

pub enum ItemSpec {
    Main {
        name: Seq<char>,
        tags: Seq<CardTag>,
        primary_token: TokenType,
        direction: MainEffectDirection,
        formula: TierScalingFormula,
    },
    SelfConsuming {
        main_token: TokenType,
        main_direction: MainEffectDirection,
        secondary_token: TokenType,
        is_beneficial: bool,
    },
    CrossToken {
        main_token: TokenType,
        main_direction: MainEffectDirection,
        secondary_token: TokenType,
        variation_direction: VariationDirection,
        secondary_is_beneficial: bool,
    },
}

impl View for GeneratedItem {
    type V = ItemSpec;

    open spec fn view(&self) -> ItemSpec {
        match self {
            GeneratedItem::Main { name, tags, primary_token, direction, formula } => ItemSpec::Main {
                name: name@,
                tags: tags@,
                primary_token: *primary_token,
                direction: *direction,
                formula: *formula,
            },
            GeneratedItem::SelfConsuming {
                main_token,
                main_direction,
                secondary_token,
                is_beneficial,
            } => ItemSpec::SelfConsuming {
                main_token: *main_token,
                main_direction: *main_direction,
                secondary_token: *secondary_token,
                is_beneficial: *is_beneficial,
            },
            GeneratedItem::CrossToken {
                main_token,
                main_direction,
                secondary_token,
                variation_direction,
                secondary_is_beneficial,
            } => ItemSpec::CrossToken {
                main_token: *main_token,
                main_direction: *main_direction,
                secondary_token: *secondary_token,
                variation_direction: *variation_direction,
                secondary_is_beneficial: *secondary_is_beneficial,
            },
        }
    }
}

pub open spec fn items_view(v: Seq<GeneratedItem>) -> Seq<ItemSpec> {
    v.map_values(|x: GeneratedItem| x@)
}

/// The cross-token items that token `later` adds on the mains of `earlier`.
pub open spec fn cross_items_for(
    tokens: Seq<TokenDefinitionSpec>,
    earlier: TokenDefinitionSpec,
    later: TokenDefinitionSpec,
) -> Seq<ItemSpec> {
    let on_producer = seq![
        ItemSpec::CrossToken {
            main_token: earlier.token_type,
            main_direction: MainEffectDirection::Producer,
            secondary_token: later.token_type,
            variation_direction: VariationDirection::Output,
            secondary_is_beneficial: later.is_beneficial,
        },
        ItemSpec::CrossToken {
            main_token: earlier.token_type,
            main_direction: MainEffectDirection::Producer,
            secondary_token: later.token_type,
            variation_direction: VariationDirection::Input,
            secondary_is_beneficial: later.is_beneficial,
        },
    ];
    let on_consumer = seq![
        ItemSpec::CrossToken {
            main_token: earlier.token_type,
            main_direction: MainEffectDirection::Consumer,
            secondary_token: later.token_type,
            variation_direction: VariationDirection::Output,
            secondary_is_beneficial: later.is_beneficial,
        },
        ItemSpec::CrossToken {
            main_token: earlier.token_type,
            main_direction: MainEffectDirection::Consumer,
            secondary_token: later.token_type,
            variation_direction: VariationDirection::Input,
            secondary_is_beneficial: later.is_beneficial,
        },
    ];
    // The first token (by first occurrence of its type) has only a producer.
    if tokens[0].token_type == earlier.token_type {
        on_producer
    } else {
        on_producer + on_consumer
    }
}

/// The cross-token items of token `i` on the mains of tokens `0..j`.
pub open spec fn cross_items(tokens: Seq<TokenDefinitionSpec>, i: int, j: int) -> Seq<ItemSpec>
    decreases j,
{
    if j <= 0 {
        Seq::empty()
    } else {
        cross_items(tokens, i, j - 1) + cross_items_for(tokens, tokens[j - 1], tokens[i])
    }
}

/// The items that token `i` contributes, in queue order.
pub open spec fn token_items(tokens: Seq<TokenDefinitionSpec>, i: int) -> Seq<ItemSpec> {
    let d = tokens[i];
    let producer = ItemSpec::Main {
        name: token_name(d.token_type) + "Producer"@,
        tags: d.producer_tags,
        primary_token: d.token_type,
        direction: MainEffectDirection::Producer,
        formula: d.primary_formula,
    };
    let consumer = ItemSpec::Main {
        name: token_name(d.token_type) + if d.is_beneficial {
            "Consumer"@
        } else {
            "Remover"@
        },
        tags: d.consumer_tags,
        primary_token: d.token_type,
        direction: MainEffectDirection::Consumer,
        formula: d.primary_formula,
    };
    let sc_producer = ItemSpec::SelfConsuming {
        main_token: d.token_type,
        main_direction: MainEffectDirection::Producer,
        secondary_token: d.token_type,
        is_beneficial: d.is_beneficial,
    };
    let sc_consumer = ItemSpec::SelfConsuming {
        main_token: d.token_type,
        main_direction: MainEffectDirection::Consumer,
        secondary_token: d.token_type,
        is_beneficial: d.is_beneficial,
    };
    if i == 0 {
        seq![producer, sc_producer] + cross_items(tokens, i, i)
    } else {
        seq![producer, consumer, sc_producer, sc_consumer] + cross_items(tokens, i, i)
    }
}

/// The whole generation queue for the first `n` tokens.
pub open spec fn all_items(tokens: Seq<TokenDefinitionSpec>, n: int) -> Seq<ItemSpec>
    decreases n,
{
    if n <= 0 {
        Seq::empty()
    } else {
        all_items(tokens, n - 1) + token_items(tokens, n - 1)
    }
}

/// The tier of the `k`-th item when `per_tier` items share a tier.
pub open spec fn item_tier(k: int, per_tier: u32) -> int {
    if per_tier == 0 {
        k
    } else {
        k / (per_tier as int)
    }
}

/// The last effect type whose primary token and direction match, if any.
pub open spec fn last_match(
    types: Seq<EffectTypeSpec>,
    token: TokenType,
    dir: MainEffectDirection,
) -> Option<int>
    decreases types.len(),
{
    if types.len() == 0 {
        None
    } else if types.last().primary_token == token && types.last().main_direction == dir {
        Some(types.len() - 1)
    } else {
        last_match(types.drop_last(), token, dir)
    }
}

/// Attaches a variation to the last matching main (no change without one).
pub open spec fn attach(
    types: Seq<EffectTypeSpec>,
    token: TokenType,
    dir: MainEffectDirection,
    v: VariationSpec,
) -> Seq<EffectTypeSpec> {
    match last_match(types, token, dir) {
        Some(i) => types.update(i, EffectTypeSpec { variations: types[i].variations.push(v), ..types[i] }),
        None => types,
    }
}

/// The effect types after processing one queue item at the given tier.
pub open spec fn apply_item(types: Seq<EffectTypeSpec>, item: ItemSpec, tier: u32) -> Seq<EffectTypeSpec> {
    match item {
        ItemSpec::Main { name, tags, primary_token, direction, formula } => types.push(
            EffectTypeSpec {
                name,
                tags,
                available_at_tier: tier,
                primary_token,
                main_direction: direction,
                primary_formula: formula,
                variations: Seq::empty(),
            },
        ),
        ItemSpec::SelfConsuming { main_token, main_direction, secondary_token, is_beneficial } => {
            let dir = spec_self_consuming_direction(main_direction);
            attach(
                types,
                main_token,
                main_direction,
                VariationSpec {
                    name: token_name(secondary_token) + "SelfConsuming"@,
                    secondary_token,
                    direction: dir,
                    is_self_consuming: true,
                    direction_sign: spec_direction_sign(is_beneficial, dir),
                    unlock_tier: tier,
                },
            )
        },
        ItemSpec::CrossToken {
            main_token,
            main_direction,
            secondary_token,
            variation_direction,
            secondary_is_beneficial,
        } => attach(
            types,
            main_token,
            main_direction,
            VariationSpec {
                name: token_name(secondary_token) + match variation_direction {
                    VariationDirection::Input => "Input"@,
                    VariationDirection::Output => "Output"@,
                },
                secondary_token,
                direction: variation_direction,
                is_self_consuming: false,
                direction_sign: spec_direction_sign(secondary_is_beneficial, variation_direction),
                unlock_tier: tier,
            },
        ),
    }
}

/// The effect types built from the first `k` items of the queue.
pub open spec fn build_types(items: Seq<ItemSpec>, k: int, per_tier: u32) -> Seq<EffectTypeSpec>
    decreases k,
{
    if k <= 0 {
        Seq::empty()
    } else {
        apply_item(build_types(items, k - 1, per_tier), items[k - 1], item_tier(k - 1, per_tier) as u32)
    }
}

/// The effect types that the generator produces from these token definitions.
pub open spec fn spec_generate_effect_types(
    tokens: Seq<TokenDefinitionSpec>,
    per_tier: u32,
) -> Seq<EffectTypeSpec> {
    let items = all_items(tokens, tokens.len() as int);
    build_types(items, items.len() as int, per_tier)
}

fn copy_tags(v: &Vec<CardTag>) -> (r: Vec<CardTag>)
    ensures
        r@ == v@,
{
    crate::types::copy_vec(v)
}

fn push_main_items(items: &mut Vec<GeneratedItem>, d: &TokenDefinitionConfig, is_first: bool)
    ensures
        items_view(final(items)@) == items_view(old(items)@) + if is_first {
            seq![
                ItemSpec::Main {
                    name: token_name(d.token_type) + "Producer"@,
                    tags: d.producer_tags@,
                    primary_token: d.token_type,
                    direction: MainEffectDirection::Producer,
                    formula: d.primary_formula,
                },
                ItemSpec::SelfConsuming {
                    main_token: d.token_type,
                    main_direction: MainEffectDirection::Producer,
                    secondary_token: d.token_type,
                    is_beneficial: d.is_beneficial,
                },
            ]
        } else {
            seq![
                ItemSpec::Main {
                    name: token_name(d.token_type) + "Producer"@,
                    tags: d.producer_tags@,
                    primary_token: d.token_type,
                    direction: MainEffectDirection::Producer,
                    formula: d.primary_formula,
                },
                ItemSpec::Main {
                    name: token_name(d.token_type) + if d.is_beneficial {
                        "Consumer"@
                    } else {
                        "Remover"@
                    },
                    tags: d.consumer_tags@,
                    primary_token: d.token_type,
                    direction: MainEffectDirection::Consumer,
                    formula: d.primary_formula,
                },
                ItemSpec::SelfConsuming {
                    main_token: d.token_type,
                    main_direction: MainEffectDirection::Producer,
                    secondary_token: d.token_type,
                    is_beneficial: d.is_beneficial,
                },
                ItemSpec::SelfConsuming {
                    main_token: d.token_type,
                    main_direction: MainEffectDirection::Consumer,
                    secondary_token: d.token_type,
                    is_beneficial: d.is_beneficial,
                },
            ]
        },
{
    let ghost start = items_view(items@);
    items.push(
        GeneratedItem::Main {
            name: token_name_with(d.token_type, "Producer"),
            tags: copy_tags(&d.producer_tags),
            primary_token: d.token_type,
            direction: MainEffectDirection::Producer,
            formula: d.primary_formula,
        },
    );
    if !is_first {
        let consumer_name = if d.is_beneficial {
            token_name_with(d.token_type, "Consumer")
        } else {
            token_name_with(d.token_type, "Remover")
        };
        items.push(
            GeneratedItem::Main {
                name: consumer_name,
                tags: copy_tags(&d.consumer_tags),
                primary_token: d.token_type,
                direction: MainEffectDirection::Consumer,
                formula: d.primary_formula,
            },
        );
    }
    items.push(
        GeneratedItem::SelfConsuming {
            main_token: d.token_type,
            main_direction: MainEffectDirection::Producer,
            secondary_token: d.token_type,
            is_beneficial: d.is_beneficial,
        },
    );
    if !is_first {
        items.push(
            GeneratedItem::SelfConsuming {
                main_token: d.token_type,
                main_direction: MainEffectDirection::Consumer,
                secondary_token: d.token_type,
                is_beneficial: d.is_beneficial,
            },
        );
    }
    proof {
        if is_first {
            assert(items_view(items@) =~= start + seq![
                ItemSpec::Main {
                    name: token_name(d.token_type) + "Producer"@,
                    tags: d.producer_tags@,
                    primary_token: d.token_type,
                    direction: MainEffectDirection::Producer,
                    formula: d.primary_formula,
                },
                ItemSpec::SelfConsuming {
                    main_token: d.token_type,
                    main_direction: MainEffectDirection::Producer,
                    secondary_token: d.token_type,
                    is_beneficial: d.is_beneficial,
                },
            ]);
        } else {
            assert(items_view(items@) =~= start + seq![
                ItemSpec::Main {
                    name: token_name(d.token_type) + "Producer"@,
                    tags: d.producer_tags@,
                    primary_token: d.token_type,
                    direction: MainEffectDirection::Producer,
                    formula: d.primary_formula,
                },
                ItemSpec::Main {
                    name: token_name(d.token_type) + if d.is_beneficial {
                        "Consumer"@
                    } else {
                        "Remover"@
                    },
                    tags: d.consumer_tags@,
                    primary_token: d.token_type,
                    direction: MainEffectDirection::Consumer,
                    formula: d.primary_formula,
                },
                ItemSpec::SelfConsuming {
                    main_token: d.token_type,
                    main_direction: MainEffectDirection::Producer,
                    secondary_token: d.token_type,
                    is_beneficial: d.is_beneficial,
                },
                ItemSpec::SelfConsuming {
                    main_token: d.token_type,
                    main_direction: MainEffectDirection::Consumer,
                    secondary_token: d.token_type,
                    is_beneficial: d.is_beneficial,
                },
            ]);
        }
    }
}

fn push_cross_pair(
    items: &mut Vec<GeneratedItem>,
    main_token: TokenType,
    main_direction: MainEffectDirection,
    later: &TokenDefinitionConfig,
)
    ensures
        items_view(final(items)@) == items_view(old(items)@) + seq![
            ItemSpec::CrossToken {
                main_token,
                main_direction,
                secondary_token: later.token_type,
                variation_direction: VariationDirection::Output,
                secondary_is_beneficial: later.is_beneficial,
            },
            ItemSpec::CrossToken {
                main_token,
                main_direction,
                secondary_token: later.token_type,
                variation_direction: VariationDirection::Input,
                secondary_is_beneficial: later.is_beneficial,
            },
        ],
{
    let ghost start = items_view(items@);
    items.push(
        GeneratedItem::CrossToken {
            main_token,
            main_direction,
            secondary_token: later.token_type,
            variation_direction: VariationDirection::Output,
            secondary_is_beneficial: later.is_beneficial,
        },
    );
    items.push(
        GeneratedItem::CrossToken {
            main_token,
            main_direction,
            secondary_token: later.token_type,
            variation_direction: VariationDirection::Input,
            secondary_is_beneficial: later.is_beneficial,
        },
    );
    assert(items_view(items@) =~= start + seq![
        ItemSpec::CrossToken {
            main_token,
            main_direction,
            secondary_token: later.token_type,
            variation_direction: VariationDirection::Output,
            secondary_is_beneficial: later.is_beneficial,
        },
        ItemSpec::CrossToken {
            main_token,
            main_direction,
            secondary_token: later.token_type,
            variation_direction: VariationDirection::Input,
            secondary_is_beneficial: later.is_beneficial,
        },
    ]);
}

/// Builds the generation queue.
fn generate_items(tokens: &Vec<TokenDefinitionConfig>) -> (r: Vec<GeneratedItem>)
    ensures
        items_view(r@) == all_items(token_defs_view(tokens@), tokens@.len() as int),
{
    let ghost tv = token_defs_view(tokens@);
    let mut items: Vec<GeneratedItem> = Vec::new();
    let mut t: usize = 0;
    while t < tokens.len()
        invariant
            t <= tokens@.len(),
            tv == token_defs_view(tokens@),
            items_view(items@) == all_items(tv, t as int),
        decreases tokens.len() - t,
    {
        let d = &tokens[t];
        let ghost before = items_view(items@);
        push_main_items(&mut items, d, t == 0);
        let ghost mains = items_view(items@);
        let mut e: usize = 0;
        while e < t
            invariant
                t < tokens@.len(),
                e <= t,
                tv == token_defs_view(tokens@),
                d == &tokens@[t as int],
                items_view(items@) == mains + cross_items(tv, t as int, e as int),
            decreases t - e,
        {
            let earlier = &tokens[e];
            let first_type = tokens[0].token_type;
            let ghost before_e = items_view(items@);
            push_cross_pair(&mut items, earlier.token_type, MainEffectDirection::Producer, d);
            if first_type != earlier.token_type {
                push_cross_pair(&mut items, earlier.token_type, MainEffectDirection::Consumer, d);
            }
            proof {
                assert(tv[e as int] == earlier@);
                assert(tv[t as int] == d@);
                assert(tv[0] == tokens@[0]@);
                assert(items_view(items@) =~= mains + cross_items(tv, t as int, e + 1));
            }
            e = e + 1;
        }
        proof {
            assert(tv[t as int] == d@);
            assert(items_view(items@) =~= all_items(tv, t + 1));
        }
        t = t + 1;
    }
    items
}

/// Attaches a variation to the last main with this primary token and direction.
fn attach_variation(
    effect_types: &mut Vec<CardEffectTypeConfig>,
    main_token: TokenType,
    main_direction: MainEffectDirection,
    variation: CardEffectVariation,
)
    ensures
        effect_types_view(final(effect_types)@) == attach(
            effect_types_view(old(effect_types)@),
            main_token,
            main_direction,
            variation@,
        ),
{
    let ghost old_view = effect_types_view(effect_types@);
    let mut i: usize = effect_types.len();
    proof {
        assert(old_view.take(i as int) =~= old_view);
    }
    while i > 0
        invariant
            i <= effect_types@.len(),
            effect_types_view(effect_types@) == old_view,
            old_view == effect_types_view(old(effect_types)@),
            last_match(old_view, main_token, main_direction) == last_match(
                old_view.take(i as int),
                main_token,
                main_direction,
            ),
        decreases i,
    {
        let idx = i - 1;
        proof {
            assert(old_view.take(i as int).drop_last() =~= old_view.take(idx as int));
            assert(old_view.take(i as int).last() == old_view[idx as int]);
        }
        if effect_types[idx].primary_token == main_token && effect_types[idx].main_direction
            == main_direction {
            let ghost pre = effect_types@;
            let mut et = effect_types.remove(idx);
            et.variations.push(variation);
            let ghost et_v = et;
            effect_types.insert(idx, et);
            proof {
                assert(effect_types@ =~= pre.update(idx as int, et_v));
                let nv = effect_types_view(effect_types@);
                let sv = attach(old_view, main_token, main_direction, variation@);
                assert(last_match(old_view, main_token, main_direction) == Some(idx as int));
                assert(variations_view(et.variations@) =~= old_view[idx as int].variations.push(
                    variation@,
                ));
                assert(nv.len() == sv.len());
                assert forall|j: int| 0 <= j < nv.len() implies nv[j] == sv[j] by {
                    if j != idx {
                        assert(effect_types@[j] == pre[j]);
                    }
                }
                assert(nv =~= sv);
            }
            return;
        }
        i = idx;
    }
    proof {
        assert(old_view.take(0) =~= Seq::<EffectTypeSpec>::empty());
    }
}

/// Generate all card effect types and their variations from token definitions.
pub fn generate_effect_types(config: &TokenDefinitionsConfig) -> (r: Vec<CardEffectTypeConfig>)
    requires
        all_items(token_defs_view(config.tokens@), config.tokens@.len() as int).len() <= u32::MAX,
    ensures
        effect_types_view(r@) == spec_generate_effect_types(
            token_defs_view(config.tokens@),
            config.variation_settings.items_per_tier,
        ),
{
    let items_per_tier = config.variation_settings.items_per_tier;
    let all = generate_items(&config.tokens);
    let ghost iv = items_view(all@);
    let mut tier_counter: u32 = 0;
    let mut items_in_current_tier: u32 = 0;
    let mut effect_types: Vec<CardEffectTypeConfig> = Vec::new();
    let mut k: usize = 0;
    while k < all.len()
        invariant
            k <= all@.len(),
            all@.len() <= u32::MAX,
            iv == items_view(all@),
            tier_counter == item_tier(k as int, items_per_tier),
            items_per_tier == 0 ==> items_in_current_tier == 0,
            items_per_tier > 0 ==> k == tier_counter * items_per_tier + items_in_current_tier
                && items_in_current_tier < items_per_tier,
            effect_types_view(effect_types@) == build_types(iv, k as int, items_per_tier),
        decreases all.len() - k,
    {
        let current_tier = tier_counter;
        let ghost before = effect_types_view(effect_types@);
        proof {
            if items_per_tier > 0 {
                vstd::arithmetic::div_mod::lemma_fundamental_div_mod_converse(
                    k as int,
                    items_per_tier as int,
                    tier_counter as int,
                    items_in_current_tier as int,
                );
            }
            assert(iv[k as int] == all@[k as int]@);
        }
        match &all[k] {
            GeneratedItem::Main { name, tags, primary_token, direction, formula } => {
                effect_types.push(
                    CardEffectTypeConfig {
                        name: String::from_str(name.as_str()),
                        tags: copy_tags(tags),
                        available_at_tier: current_tier,
                        primary_token: *primary_token,
                        main_direction: *direction,
                        primary_formula: *formula,
                        variations: Vec::new(),
                    },
                );
                proof {
                    let ev = effect_types_view(effect_types@);
                    assert(ev.drop_last() =~= before);
                    assert(iv[k as int] matches ItemSpec::Main { .. });
                    assert(ev.last().name == name@);
                    assert(ev.last().tags == tags@);
                    assert(ev.last().variations =~= Seq::<VariationSpec>::empty());
                    assert(effect_types_view(effect_types@) =~= apply_item(
                        before,
                        iv[k as int],
                        current_tier,
                    ));
                }
            },
            GeneratedItem::SelfConsuming {
                main_token,
                main_direction,
                secondary_token,
                is_beneficial,
            } => {
                let dir = self_consuming_variation_direction(*main_direction);
                let direction_sign = compute_direction_sign(*is_beneficial, dir);
                let variation = CardEffectVariation {
                    name: token_name_with(*secondary_token, "SelfConsuming"),
                    secondary_token: *secondary_token,
                    direction: dir,
                    is_self_consuming: true,
                    direction_sign,
                    unlock_tier: current_tier,
                };
                attach_variation(&mut effect_types, *main_token, *main_direction, variation);
            },
            GeneratedItem::CrossToken {
                main_token,
                main_direction,
                secondary_token,
                variation_direction,
                secondary_is_beneficial,
            } => {
                let direction_sign = compute_direction_sign(
                    *secondary_is_beneficial,
                    *variation_direction,
                );
                let name = match variation_direction {
                    VariationDirection::Input => token_name_with(*secondary_token, "Input"),
                    VariationDirection::Output => token_name_with(*secondary_token, "Output"),
                };
                let variation = CardEffectVariation {
                    name,
                    secondary_token: *secondary_token,
                    direction: *variation_direction,
                    is_self_consuming: false,
                    direction_sign,
                    unlock_tier: current_tier,
                };
                attach_variation(&mut effect_types, *main_token, *main_direction, variation);
            },
        }
        proof {
            assert(effect_types_view(effect_types@) == build_types(iv, k + 1, items_per_tier));
        }
        let ghost old_t = tier_counter as int;
        let ghost old_c = items_in_current_tier as int;
        items_in_current_tier = items_in_current_tier + 1;
        if items_in_current_tier >= items_per_tier {
            items_in_current_tier = 0;
            proof {
                if items_per_tier > 0 {
                    let p = items_per_tier as int;
                    assert(old_c + 1 == p);
                    assert((old_t + 1) * p == old_t * p + p) by (nonlinear_arith);
                }
            }
            tier_counter = tier_counter + 1;
        }
        proof {
            if items_per_tier > 0 {
                let p = items_per_tier as int;
                vstd::arithmetic::div_mod::lemma_fundamental_div_mod_converse(
                    k + 1,
                    p,
                    tier_counter as int,
                    items_in_current_tier as int,
                );
            }
        }
        k = k + 1;
    }
    effect_types
}

} // verus!
