use ffvb_scraper::backend::{Match, Score, Worker};
use ffvb_scraper::error::ScrapeError;

fn row(cells: &[&str]) -> String {
    let mut r = String::from("<tr>");
    for c in cells {
        r.push_str(&format!("<td>{}</td>", c));
    }
    r.push_str("</tr>");
    r
}

/// A pool page: two layout tables, the ranking, then the results.
fn pool_page(ranking: &[String], results: &[String]) -> String {
    let mut page = String::from("<html><body><table><tr><td>menu</td></tr></table>");
    page.push_str("<table><tr><td>title</td></tr></table><table>");
    for r in ranking {
        page.push_str(r);
    }
    page.push_str("</table><table>");
    for r in results {
        page.push_str(r);
    }
    page.push_str("</table></body></html>");
    page
}

fn played(first: &str, second: &str, lhs: &str, rhs: &str) -> String {
    row(&["RMA001", "12/11/22", "20:00", first, "-", second, lhs, rhs])
}

fn to_play(first: &str, second: &str, place: &str) -> String {
    row(&["RMA002", "19/11/22", "21:00", first, "-", second, "GYMNASE", place])
}

#[test]
fn matches_of_a_team_in_row_order() {
    let page = pool_page(
        &[],
        &[
            row(&["Journée 1"]),
            played("CLAMART", "DRAVEIL", "3", "1"),
            played("MEUDON", "VANVES", "0", "3"),
            to_play("DRAVEIL", "CLAMART", "Salle Jean Moulin"),
        ],
    );
    let worker = Worker::new(&page);
    let matches = worker.scrap_matchs("CLAMART").unwrap();
    assert_eq!(matches.len(), 2);

    assert_eq!(matches[0].first_team(), "CLAMART");
    assert_eq!(matches[0].second_team(), "DRAVEIL");
    assert_eq!(matches[0].date(), "12/11/22");
    assert_eq!(matches[0].hour(), "20:00");
    assert_eq!(matches[0].place(), "");
    assert_eq!(matches[0].match_score(), Score::new(3, 1));
    assert!(matches[0].sets_score().is_empty());

    assert_eq!(matches[1].first_team(), "DRAVEIL");
    assert_eq!(matches[1].place(), "Salle Jean Moulin");
    assert_eq!(matches[1].match_score(), Score::new(0, 0));
}

#[test]
fn score_cells_are_read_around_white_space() {
    let page = pool_page(&[], &[played("CLAMART", "DRAVEIL", "\n 2 ", " +3\t")]);
    let matches = Worker::new(&page).scrap_matchs("DRAVEIL").unwrap();
    assert_eq!(matches.len(), 1);
    assert_eq!(matches[0].match_score().lhs(), 2);
    assert_eq!(matches[0].match_score().rhs(), 3);
}

#[test]
fn unassigned_slots_are_never_reported() {
    let page = pool_page(
        &[],
        &[
            to_play("CLAMART", "xxxxx", "Gymnase"),
            to_play("xxxxx", "CLAMART", "Gymnase"),
            to_play("CLAMART", "VANVES", "Gymnase"),
        ],
    );
    let matches = Worker::new(&page).scrap_matchs("CLAMART").unwrap();
    assert_eq!(matches.len(), 1);
    assert_eq!(matches[0].second_team(), "VANVES");
    assert!(Worker::new(&page).scrap_matchs("xxxxx").unwrap().is_empty());
}

#[test]
fn a_played_match_has_a_score_and_no_place() {
    let page = pool_page(&[], &[played("A", "B", "3", "2"), to_play("B", "A", "Halle")]);
    for m in Worker::new(&page).scrap_matchs("A").unwrap() {
        let scored = m.match_score() != Score::new(0, 0);
        assert!(scored != !m.place().is_empty());
    }
}

#[test]
fn a_short_match_row_is_a_structural_mismatch() {
    let page = pool_page(&[], &[row(&["RMA001", "12/11/22", "20:00", "A", "-", "B"])]);
    assert_eq!(Worker::new(&page).scrap_matchs("A"), Err(ScrapeError::StructuralMismatch));
}

#[test]
fn a_score_without_its_second_half_is_a_structural_mismatch() {
    let page = pool_page(&[], &[played("A", "B", "3", "forfait")]);
    assert_eq!(Worker::new(&page).scrap_matchs("A"), Err(ScrapeError::StructuralMismatch));
}

#[test]
fn a_score_too_large_reads_as_a_venue() {
    let page = pool_page(&[], &[played("A", "B", "256", "Halle")]);
    let matches = Worker::new(&page).scrap_matchs("A").unwrap();
    assert_eq!(matches[0].place(), "Halle");
    assert_eq!(matches[0].match_score(), Score::new(0, 0));
}

#[test]
fn a_missing_results_table_is_a_structural_mismatch() {
    let page = "<html><body><table><tr><td>only</td></tr></table></body></html>";
    assert_eq!(Worker::new(page).scrap_matchs("A"), Err(ScrapeError::StructuralMismatch));
    assert_eq!(Worker::new(page).scrap_ranks(), Err(ScrapeError::StructuralMismatch));
}

#[test]
fn the_results_table_position_can_be_chosen() {
    let page = pool_page(&[played("A", "B", "3", "0")], &[]);
    let worker = Worker::with_tables(&page, 0, 2);
    let matches = worker.scrap_matchs("B").unwrap();
    assert_eq!(matches.len(), 1);
    assert_eq!(matches[0].match_score(), Score::new(3, 0));
}

#[test]
fn ranking_skips_the_header_row() {
    let page = pool_page(
        &[
            row(&["Rang", "Équipe"]),
            row(&["1", "CLAMART"]),
            row(&["2.", "DRAVEIL"]),
            row(&["12", "VANVES"]),
        ],
        &[],
    );
    let ranks = Worker::new(&page).scrap_ranks().unwrap();
    assert_eq!(
        ranks,
        vec![
            (1, String::from("CLAMART")),
            (2, String::from("DRAVEIL")),
            (12, String::from("VANVES")),
        ]
    );
}

#[test]
fn a_rank_that_is_not_a_number_is_a_structural_mismatch() {
    let page = pool_page(&[row(&["Rang", "Équipe"]), row(&["-", "CLAMART"])], &[]);
    assert_eq!(Worker::new(&page).scrap_ranks(), Err(ScrapeError::StructuralMismatch));
}

#[test]
fn an_empty_ranking_table() {
    let page = pool_page(&[], &[]);
    assert_eq!(Worker::new(&page).scrap_ranks(), Ok(vec![]));
}

#[test]
fn match_can_be_built_from_its_fields() {
    let m = Match::new(
        String::from("A"),
        String::from("B"),
        String::from("01/01/23"),
        String::from("20:00"),
        String::new(),
        Score::new(3, 1),
        vec![Score::new(25, 20)],
    );
    assert_eq!(m.first_team(), "A");
    assert_eq!(m.second_team(), "B");
    assert_eq!(m.sets_score(), &vec![Score::new(25, 20)]);
}
