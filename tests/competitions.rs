use ffvb_scraper::constant;
use ffvb_scraper::entity::Competition;
use ffvb_scraper::parse;

#[test]
fn parse_test_competitions_scrap() {
    let competitions: Vec<Competition> = parse::competitions();
    assert_eq!(competitions.len(), 3);

    assert!(competitions.contains(&Competition::new(
        constant::CHAMP_NAT,
        constant::CHAMP_NAT_URL,
    )));

    assert!(competitions.contains(&Competition::new(
        constant::CHAMP_REG,
        constant::CHAMP_REG_URL,
    )));

    assert!(competitions.contains(&Competition::new(
        constant::CHAMP_DEP,
        constant::CHAMP_DEP_URL,
    )));
}

#[test]
fn mod_test_competitions_scrap() {
    let competitions: Vec<Competition> = parse::competitions();
    assert_eq!(competitions.len(), 3);

    assert!(competitions.contains(&Competition::new(
        constant::CHAMP_NAT,
        constant::CHAMP_NAT_URL,
    )));

    assert!(competitions.contains(&Competition::new(
        constant::CHAMP_REG,
        constant::CHAMP_REG_URL,
    )));

    assert!(competitions.contains(&Competition::new(
        constant::CHAMP_DEP,
        constant::CHAMP_DEP_URL,
    )));
}

#[test]
fn competitions_come_in_fixed_order() {
    let competitions = parse::competitions();
    let names: Vec<&str> = competitions.iter().map(|c| c.name().as_str()).collect();
    assert_eq!(names, vec!["National", "Régional", "Départemental"]);
    assert_eq!(
        competitions[0].url(),
        "http://www.ffvb.org/competitions/volley-ball/championnats-nationaux/"
    );
    assert_eq!(
        competitions[1].url(),
        "http://www.ffvb.org/competitions/volley-ball/championnats-regionaux/"
    );
    assert_eq!(
        competitions[2].url(),
        "http://www.ffvb.org/competitions/volley-ball/championnats-departementaux/"
    );
}
