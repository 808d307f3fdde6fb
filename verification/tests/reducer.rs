use cook_parser::{parse, Amount, Block, CookError, IngredientToken, Qty, StepItem};

fn q(num: u64, den: u64) -> Qty {
    Qty { num, den }
}

fn count(s: &str, c: char) -> usize {
    s.chars().filter(|x| *x == c).count()
}

#[test]
fn it_works() {
    let src = "\
>> value: key // This is a comment\n\
// A comment line\n\
>> servings: 1|2|3\n\
Get some @fruit salat ananas{1/2*}(washed) and pull it\n\
Use the #big potato masher{}\n\
Start the timer ~{10%minutes}\n";
    let blocks = vec![
        Block::MetadataLine {
            key: "value".to_string(),
            value: "key".to_string(),
            text: ">> value: key ".to_string(),
        },
        Block::Comment("// This is a comment".to_string()),
        Block::Text("\n".to_string()),
        Block::Comment("// A comment line".to_string()),
        Block::Text("\n".to_string()),
        Block::MetadataLine {
            key: "servings".to_string(),
            value: "1|2|3".to_string(),
            text: ">> servings: 1|2|3".to_string(),
        },
        Block::Text("\n".to_string()),
        Block::Step(vec![
            StepItem::Text("Get some ".to_string()),
            StepItem::Ingredient(vec![
                IngredientToken::Name("fruit".to_string()),
                IngredientToken::Name("salat".to_string()),
                IngredientToken::Name("ananas".to_string()),
                IngredientToken::Number("1".to_string()),
                IngredientToken::Number("2".to_string()),
                IngredientToken::Scaling,
                IngredientToken::Modified("washed".to_string()),
            ]),
            StepItem::Text(" and pull it".to_string()),
        ]),
        Block::Text("\n".to_string()),
        Block::Step(vec![
            StepItem::Text("Use the ".to_string()),
            StepItem::Cookware(vec![
                "big".to_string(),
                "potato".to_string(),
                "masher".to_string(),
            ]),
        ]),
        Block::Text("\n".to_string()),
        Block::Step(vec![
            StepItem::Text("Start the timer ".to_string()),
            StepItem::Timer {
                number: Some("10".to_string()),
                unit: Some("minutes".to_string()),
            },
        ]),
        Block::Text("\n".to_string()),
    ];
    let r = parse(src.to_string(), blocks).unwrap();
    assert_eq!(r.source, src);
    assert_eq!(r.metadata.servings, Some(vec![1, 2, 3]));
    let fruit = r.metadata.ingredients.get("fruit salat ananas").unwrap();
    // two numeric tokens in a row: the first is divided by the second,
    // then the scaling marker promotes the plain quantity
    assert!(matches!(fruit.amount, Some(Amount::Multi(v)) if v == q(1, 2)));
    assert_eq!(r.metadata.cookware, vec!["big potato masher".to_string()]);
    assert_eq!(r.metadata.timer.len(), 1);
    assert_eq!(r.metadata.timer[0].amount, 10);
    assert_eq!(r.metadata.timer[0].unit, "minutes");
    assert_eq!(
        r.metadata.ominous.get(&"value".to_string()),
        Some(&"key".to_string())
    );
}

#[test]
fn full_document_scenario() {
    let src = ">> servings: 1|2|3\nUse @flour{2%cups} and #bowl{} for ~{10%minutes}";
    let blocks = vec![
        Block::MetadataLine {
            key: "servings".to_string(),
            value: "1|2|3".to_string(),
            text: ">> servings: 1|2|3".to_string(),
        },
        Block::Text("\n".to_string()),
        Block::Step(vec![
            StepItem::Text("Use ".to_string()),
            StepItem::Ingredient(vec![
                IngredientToken::Name("flour".to_string()),
                IngredientToken::Number("2".to_string()),
                IngredientToken::Scaling,
                IngredientToken::Unit("cups".to_string()),
            ]),
            StepItem::Text(" and ".to_string()),
            StepItem::Cookware(vec!["bowl".to_string()]),
            StepItem::Text(" for ".to_string()),
            StepItem::Timer {
                number: Some("10".to_string()),
                unit: Some("minutes".to_string()),
            },
        ]),
    ];
    let r = parse(src.to_string(), blocks).unwrap();
    assert_eq!(r.metadata.servings, Some(vec![1, 2, 3]));
    assert_eq!(r.metadata.ingredients.len(), 1);
    let flour = r.metadata.ingredients.get("flour").unwrap();
    assert_eq!(flour.name, "flour");
    assert_eq!(flour.unit.as_deref(), Some("cups"));
    assert!(matches!(flour.amount, Some(Amount::Multi(v)) if v == q(2, 1)));
    assert_eq!(r.metadata.cookware, vec!["bowl".to_string()]);
    assert_eq!(r.metadata.timer.len(), 1);
    assert_eq!(r.metadata.timer[0].amount, 10);
    assert_eq!(r.metadata.timer[0].unit, "minutes");
    assert_eq!(r.instruction, ">> servings: 1|2|3\nUse @ and # for ~");
    assert_eq!(count(&r.instruction, '@'), 1);
    assert_eq!(count(&r.instruction, '#'), 1);
    assert_eq!(count(&r.instruction, '~'), 1);
    assert_eq!(r.metadata.ingredients_specifiers.len(), 1);
}

#[test]
fn repeated_mention_merges() {
    let blocks = vec![
        Block::Step(vec![
            StepItem::Ingredient(vec![
                IngredientToken::Name("salt".to_string()),
                IngredientToken::Number("1".to_string()),
            ]),
            StepItem::Text(" then ".to_string()),
            StepItem::Ingredient(vec![
                IngredientToken::Name("salt".to_string()),
                IngredientToken::Number("2".to_string()),
            ]),
        ]),
    ];
    let r = parse("@salt{1} then @salt{2}".to_string(), blocks).unwrap();
    assert_eq!(r.metadata.ingredients.len(), 1);
    let salt = r.metadata.ingredients.get("salt").unwrap();
    assert!(matches!(salt.amount, Some(Amount::Single(v)) if v == q(3, 1)));
    assert_eq!(salt.unit, None);
    assert_eq!(r.metadata.ingredients_specifiers.len(), 2);
    assert_eq!(count(&r.instruction, '@'), 2);
    assert_eq!(r.instruction, "@ then @");
}

#[test]
fn separator_shorthand_builds_brackets() {
    let blocks = vec![Block::Step(vec![StepItem::Ingredient(vec![
        IngredientToken::Name("sugar".to_string()),
        IngredientToken::Number("1".to_string()),
        IngredientToken::Separator,
        IngredientToken::Number("2".to_string()),
    ])])];
    let r = parse("@sugar{1/2}".to_string(), blocks).unwrap();
    let spec = &r.metadata.ingredients_specifiers[0];
    assert_eq!(spec.ingredient, "sugar");
    assert!(matches!(&spec.amount_in_step, Amount::Servings(v) if *v == vec![q(1, 1), q(2, 1)]));
    let sugar = r.metadata.ingredients.get("sugar").unwrap();
    assert!(matches!(&sugar.amount, Some(Amount::Servings(v)) if *v == vec![q(1, 1), q(2, 1)]));
}

#[test]
fn unit_mismatch_fails() {
    let blocks = vec![Block::Step(vec![
        StepItem::Ingredient(vec![
            IngredientToken::Name("x".to_string()),
            IngredientToken::Number("1".to_string()),
            IngredientToken::Unit("g".to_string()),
        ]),
        StepItem::Ingredient(vec![
            IngredientToken::Name("x".to_string()),
            IngredientToken::Number("1".to_string()),
            IngredientToken::Unit("kg".to_string()),
        ]),
    ])];
    let e = parse("@x{1}(g)@x{1}(kg)".to_string(), blocks).unwrap_err();
    assert!(matches!(e, CookError::UnitMismatch(name) if name == "x"));
}

#[test]
fn variant_mismatch_fails() {
    let blocks = vec![Block::Step(vec![
        StepItem::Ingredient(vec![
            IngredientToken::Name("salt".to_string()),
            IngredientToken::Number("1".to_string()),
        ]),
        StepItem::Ingredient(vec![
            IngredientToken::Name("salt".to_string()),
            IngredientToken::Number("1".to_string()),
            IngredientToken::Separator,
            IngredientToken::Number("2".to_string()),
        ]),
    ])];
    let e = parse("@salt{1}@salt{1/2}".to_string(), blocks).unwrap_err();
    assert!(matches!(e, CookError::AmountAlgebra));
}

#[test]
fn merge_into_amountless_entry_fails() {
    let blocks = vec![Block::Step(vec![
        StepItem::Ingredient(vec![IngredientToken::Name("salt".to_string())]),
        StepItem::Ingredient(vec![
            IngredientToken::Name("salt".to_string()),
            IngredientToken::Number("1".to_string()),
        ]),
    ])];
    let e = parse("@salt @salt{1}".to_string(), blocks).unwrap_err();
    assert!(matches!(e, CookError::AmountAlgebra));
}

#[test]
fn bad_servings_number_fails() {
    let blocks = vec![Block::MetadataLine {
        key: "servings".to_string(),
        value: "1|x".to_string(),
        text: ">> servings: 1|x".to_string(),
    }];
    let e = parse(">> servings: 1|x".to_string(), blocks).unwrap_err();
    assert!(matches!(e, CookError::NumericParse(t) if t == "x"));
}

#[test]
fn bad_timer_number_fails() {
    let blocks = vec![Block::Step(vec![StepItem::Timer {
        number: Some("soon".to_string()),
        unit: Some("minutes".to_string()),
    }])];
    let e = parse("~{soon%minutes}".to_string(), blocks).unwrap_err();
    assert!(matches!(e, CookError::NumericParse(t) if t == "soon"));
}

#[test]
fn huge_quantity_fails() {
    let blocks = vec![Block::Step(vec![StepItem::Ingredient(vec![
        IngredientToken::Name("water".to_string()),
        IngredientToken::Number("99999999999999999999".to_string()),
    ])])];
    let e = parse("@water{99999999999999999999}".to_string(), blocks).unwrap_err();
    assert!(matches!(e, CookError::NumericParse(t) if t == "99999999999999999999"));
}

#[test]
fn division_by_zero_fails() {
    let blocks = vec![Block::Step(vec![StepItem::Ingredient(vec![
        IngredientToken::Name("x".to_string()),
        IngredientToken::Number("1".to_string()),
        IngredientToken::Number("0".to_string()),
    ])])];
    let e = parse("@x{1 0}".to_string(), blocks).unwrap_err();
    assert!(matches!(e, CookError::AmountAlgebra));
}

#[test]
fn separator_without_amount_fails() {
    let blocks = vec![Block::Step(vec![StepItem::Ingredient(vec![
        IngredientToken::Name("x".to_string()),
        IngredientToken::Separator,
    ])])];
    let e = parse("@x{/}".to_string(), blocks).unwrap_err();
    assert!(matches!(e, CookError::AmountAlgebra));
}

#[test]
fn scaling_on_brackets_fails() {
    let blocks = vec![Block::Step(vec![StepItem::Ingredient(vec![
        IngredientToken::Name("x".to_string()),
        IngredientToken::Number("1".to_string()),
        IngredientToken::Separator,
        IngredientToken::Number("2".to_string()),
        IngredientToken::Scaling,
    ])])];
    let e = parse("@x{1/2*}".to_string(), blocks).unwrap_err();
    assert!(matches!(e, CookError::AmountAlgebra));
}

#[test]
fn comments_leave_no_trace() {
    let blocks = vec![
        Block::Comment("// top".to_string()),
        Block::Text("keep ".to_string()),
        Block::Step(vec![
            StepItem::Text("this".to_string()),
            StepItem::Comment("// inline".to_string()),
            StepItem::Text(" text".to_string()),
        ]),
    ];
    let r = parse("// top\nkeep this// inline text".to_string(), blocks).unwrap();
    assert_eq!(r.instruction, "keep this text");
}

#[test]
fn last_metadata_write_wins() {
    let blocks = vec![
        Block::MetadataLine {
            key: "note".to_string(),
            value: "one".to_string(),
            text: "".to_string(),
        },
        Block::MetadataLine {
            key: "note".to_string(),
            value: "two".to_string(),
            text: "".to_string(),
        },
    ];
    let r = parse("".to_string(), blocks).unwrap();
    assert_eq!(r.metadata.ominous.len(), 1);
    assert_eq!(
        r.metadata.ominous.get(&"note".to_string()),
        Some(&"two".to_string())
    );
}

#[test]
fn ids_follow_insertion_order() {
    let blocks = vec![Block::Step(vec![
        StepItem::Ingredient(vec![IngredientToken::Name("a".to_string())]),
        StepItem::Ingredient(vec![IngredientToken::Name("b".to_string())]),
        StepItem::Ingredient(vec![IngredientToken::Name("a".to_string())]),
    ])];
    let r = parse("@a @b @a".to_string(), blocks).unwrap();
    assert_eq!(r.metadata.ingredients.len(), 2);
    assert_eq!(r.metadata.ingredients.get("a").unwrap().id, 0);
    assert_eq!(r.metadata.ingredients.get("b").unwrap().id, 1);
    assert_eq!(r.metadata.ingredients_specifiers.len(), 3);
    // a mention with no amount stands in the specifier list as zero
    assert!(matches!(
        &r.metadata.ingredients_specifiers[0].amount_in_step,
        Amount::Single(v) if *v == q(0, 1)
    ));
}

#[test]
fn nameless_cookware_keeps_its_slot() {
    let blocks = vec![Block::Step(vec![StepItem::Cookware(vec![])])];
    let r = parse("#{}".to_string(), blocks).unwrap();
    assert_eq!(r.metadata.cookware, vec!["".to_string()]);
    assert_eq!(r.instruction, "#");
}

#[test]
fn cookware_not_deduplicated() {
    let blocks = vec![Block::Step(vec![
        StepItem::Cookware(vec!["pan".to_string()]),
        StepItem::Cookware(vec!["pan".to_string()]),
    ])];
    let r = parse("#pan{} #pan{}".to_string(), blocks).unwrap();
    assert_eq!(
        r.metadata.cookware,
        vec!["pan".to_string(), "pan".to_string()]
    );
    assert_eq!(count(&r.instruction, '#'), 2);
}
