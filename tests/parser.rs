use cooklang::{parse, Cookware, Ingredient, Metadata, Part, Timer};

fn text(s: &str) -> Part {
    Part::Text(s.to_string())
}

fn ingredient(name: &str, quantity: &str, units: &str) -> Part {
    Part::Ingredient(Ingredient {
        name: name.to_string(),
        quantity: quantity.to_string(),
        units: units.to_string(),
    })
}

fn metadata(key: &str, value: &str) -> Part {
    Part::Metadata(Metadata {
        key: key.to_string(),
        value: value.to_string(),
    })
}

#[test]
fn test_metadata() {
    assert_eq!(
        parse(">> plop: coucou\nfoo").unwrap_or_default(),
        vec![vec![metadata("plop", "coucou")], vec![text("foo")]]
    );
    assert_eq!(
        parse(">> plop: coucou").unwrap_or_default(),
        vec![vec![metadata("plop", "coucou")]]
    );
}

#[test]
fn test_text() {
    assert_eq!(parse("foo bar").unwrap_or_default(), vec![vec![text("foo bar")]]);
}

#[test]
fn test_parse() {
    assert_eq!(
        parse(">> plop: coucou").unwrap_or_default(),
        vec![vec![metadata("plop", "coucou")]]
    );
    assert_eq!(
        parse(">> plop: coucou\nplop").unwrap_or_default(),
        vec![vec![metadata("plop", "coucou")], vec![text("plop")]]
    );
}

#[test]
fn test_end_line() {
    assert_eq!(parse("\nfoo").unwrap_or_default(), vec![vec![text("foo")]]);
}

#[test]
fn test_word() {
    assert_eq!(
        parse("@bar\nfoo").unwrap_or_default(),
        vec![vec![ingredient("bar", "", "")], vec![text("foo")]]
    );
}

#[test]
fn test_basic_direction() {
    assert_eq!(
        parse("Add a bit of chilli").unwrap_or_default(),
        vec![vec![Part::Text(String::from("Add a bit of chilli"))]]
    );
}

#[test]
fn test_comments() {
    assert_eq!(
        parse("-- testing comments").unwrap_or_default(),
        Vec::<Vec<Part>>::new()
    );
}

#[test]
fn test_comments_after_ingredients() {
    assert_eq!(
        parse("@thyme{2%springs} -- testing comments\n  and some text").unwrap_or_default(),
        vec![
            vec![ingredient("thyme", "2", "springs")],
            vec![text("and some text")]
        ]
    );
}

#[test]
fn test_comments_with_ingredients() {
    assert_eq!(
        parse("-- testing comments\n        @thyme{2%springs}").unwrap_or_default(),
        vec![vec![ingredient("thyme", "2", "springs")]]
    );
}

#[test]
fn test_direction_with_ingrident() {
    assert_eq!(
        parse("Add @chilli{3%items}, @ginger{10%g} and @milk{1%l}.").unwrap_or_default(),
        vec![vec![
            text("Add"),
            ingredient("chilli", "3", "items"),
            text(","),
            ingredient("ginger", "10", "g"),
            text("and"),
            ingredient("milk", "1", "l"),
            text(".")
        ]]
    )
}

#[test]
fn test_equipment_multiple_words() {
    assert_eq!(
        parse("Fry in #frying pan{}").unwrap_or_default(),
        vec![vec![
            text("Fry in"),
            Part::Cookware(Cookware {
                name: "frying pan".to_string(),
                ..Default::default()
            })
        ]]
    )
}

#[test]
fn test_equipment_multiple_words_with_leading_number() {
    assert_eq!(
        parse("Fry in #7-inch nonstick frying pan{ }").unwrap_or_default(),
        vec![vec![
            text("Fry in"),
            Part::Cookware(Cookware {
                name: "7-inch nonstick frying pan".to_string(),
                ..Default::default()
            })
        ]]
    )
}

#[test]
fn test_equipment_multiple_words_with_spaces() {
    assert_eq!(
        parse("Fry in #frying pan{ }").unwrap_or_default(),
        vec![vec![
            text("Fry in"),
            Part::Cookware(Cookware {
                name: "frying pan".to_string(),
                ..Default::default()
            })
        ]]
    )
}

#[test]
fn test_equipment_one_word() {
    assert_eq!(
        parse("Simmer in #pan for some time").unwrap_or_default(),
        vec![vec![
            text("Simmer in"),
            Part::Cookware(Cookware {
                name: "pan".to_string(),
                ..Default::default()
            }),
            text("for some time")
        ]]
    )
}

#[test]
fn test_ingredient_with_emoji() {
    assert_eq!(
        parse("Add some @🧂").unwrap_or_default(),
        vec![vec![text("Add some"), ingredient("🧂", "", "")]]
    )
}

#[test]
fn test_ingrident_explicit_units() {
    assert_eq!(
        parse("@chilli{3%items}").unwrap_or_default(),
        vec![vec![ingredient("chilli", "3", "items")]]
    )
}

#[test]
fn test_ingrident_explicit_units_with_spaces() {
    assert_eq!(
        parse("@chilli{ 3 % items }").unwrap_or_default(),
        vec![vec![ingredient("chilli", "3", "items")]]
    )
}

#[test]
fn test_full() {
    assert_eq!(
        parse("
>> source: https://www.gimmesomeoven.com/baked-potato/
>> time required: 1.5 hours
>> course: dinner
-- Don't burn the roux!

Mash @potato{2%kg} until smooth -- alternatively, boil 'em first, then mash 'em, then stick 'em in a stew.
Place @bacon strips{1%kg} on a baking sheet and glaze with @syrup{1/2%tbsp}.
").unwrap_or_default(),
        vec![
            vec![metadata("source", "https://www.gimmesomeoven.com/baked-potato/")],
            vec![metadata("time required", "1.5 hours")],
            vec![metadata("course", "dinner")],
            vec![
                text("Mash"),
                ingredient("potato", "2", "kg"),
                text("until smooth")
            ],
            vec![
                text("Place"),
                ingredient("bacon strips", "1", "kg"),
                text("on a baking sheet and glaze with"),
                ingredient("syrup", "1/2", "tbsp"),
                text(".")
            ],
        ]
    )
}

#[test]
fn test_ponctuation_in_ingredient_name() {
    let t = "@tomates fraîches (ou pelées en boîte, à défaut){3}";
    let p = parse(t).unwrap();
    assert_eq!(
        p,
        vec![vec![ingredient(
            "tomates fraîches (ou pelées en boîte, à défaut)",
            "3",
            ""
        )]]
    )
}

#[test]
fn test_following_ingredients() {
    let t = "@sel @poivre\n\
            >> steps: facultatif\n";
    let p = parse(t).unwrap();
    assert_eq!(
        p,
        vec![
            vec![ingredient("sel", "", ""), ingredient("poivre", "", "")],
            vec![metadata("steps", "facultatif")]
        ]
    )
}

#[test]
fn empty_text_parses_to_no_line() {
    assert_eq!(parse("").unwrap(), Vec::<Vec<Part>>::new());
    assert_eq!(parse("  \n\t \n").unwrap(), Vec::<Vec<Part>>::new());
}

#[test]
fn timers_in_their_three_shapes() {
    let timer = |n: &str, q: &str, u: &str| {
        Part::Timer(Timer {
            name: n.to_string(),
            quantity: q.to_string(),
            units: u.to_string(),
        })
    };
    assert_eq!(
        parse("Bake ~{25%minutes}").unwrap(),
        vec![vec![text("Bake"), timer("", "25", "minutes")]]
    );
    assert_eq!(
        parse("Rest ~dough rise{ 2 %h}").unwrap(),
        vec![vec![text("Rest"), timer("dough rise", "2", "h")]]
    );
    assert_eq!(
        parse("Wait ~long").unwrap(),
        vec![vec![text("Wait"), timer("long", "", "")]]
    );
}

#[test]
fn cookware_drops_units() {
    assert_eq!(
        parse("#pot{2%large}").unwrap(),
        vec![vec![Part::Cookware(Cookware {
            name: "pot".to_string(),
            quantity: "2".to_string()
        })]]
    );
}

#[test]
fn stray_markers_become_text() {
    assert_eq!(
        parse("a { b").unwrap(),
        vec![vec![text("a"), text("{ b")]]
    );
    assert_eq!(parse("@").unwrap(), vec![vec![text("@")]]);
    assert_eq!(
        parse("mix @ then").unwrap(),
        vec![vec![text("mix"), text("@ then")]]
    );
    assert_eq!(
        parse("@salt{2%g").unwrap(),
        vec![vec![ingredient("salt", "", ""), text("{2%g")]]
    );
}

#[test]
fn blank_lines_are_dropped() {
    assert_eq!(
        parse("a\n\u{a0}\nb").unwrap(),
        vec![vec![text("a")], vec![text("b")]]
    );
}

#[test]
fn no_line_and_no_text_part_is_empty() {
    let inputs = [
        "a\n\u{a0}\nb",
        "@x  @y\n\n  #z  \n~{1}",
        " { \n @ \n #",
        "text -- comment\n[- only a comment -]\n",
    ];
    for input in inputs {
        for line in parse(input).unwrap() {
            assert!(!line.is_empty());
            for part in line {
                if let Part::Text(s) = part {
                    assert!(!s.trim().is_empty());
                }
            }
        }
    }
}

#[test]
fn ingredient_amount_is_trimmed() {
    assert_eq!(
        parse("@rice{\t1 1/2 % cups \t}").unwrap(),
        vec![vec![ingredient("rice", "1 1/2", "cups")]]
    );
    assert_eq!(
        parse("@olive oil{ 2 }").unwrap(),
        vec![vec![ingredient("olive oil", "2", "")]]
    );
}

#[test]
fn metadata_key_runs_to_first_colon() {
    assert_eq!(
        parse(">> url: http://x.y").unwrap(),
        vec![vec![metadata("url", "http://x.y")]]
    );
    assert_eq!(parse(">> no colon").unwrap(), vec![vec![text(">> no colon")]]);
}

#[test]
fn comment_inside_entity_name() {
    assert_eq!(
        parse("@po[- x -]mme verte{1}").unwrap(),
        vec![vec![ingredient("pomme verte", "1", "")]]
    );
}
