//! Names, addresses and page-layout facts that the decoders rely on.
use vstd::prelude::*;

verus! {

pub const CHAMP_NAT: &'static str = "National";
pub const CHAMP_REG: &'static str = "Régional";
pub const CHAMP_DEP: &'static str = "Départemental";

pub const CHAMP_NAT_URL: &'static str = "http://www.ffvb.org/competitions/volley-ball/championnats-nationaux/";
pub const CHAMP_REG_URL: &'static str = "http://www.ffvb.org/competitions/volley-ball/championnats-regionaux/";
pub const CHAMP_DEP_URL: &'static str = "http://www.ffvb.org/competitions/volley-ball/championnats-departementaux/";

/// Header cells of a listing page: one region name per column.
pub const REGION_NAMES: &'static str = "thead tr td";

/// Links of a listing page's body rows: the region pools.
pub const REGION_POOLS: &'static str = "tbody tr td ul li a";

/// The list of one region column: one fragment per region, in column order.
pub const REGION_LISTS: &'static str = "table tbody tr td ul";

/// Links inside one region's list: its departments.
pub const DEPARTMENT_LINKS: &'static str = "li a";

/// Every table of a pool page, in document order.
pub const TABLES: &'static str = "table";

/// Rows of a table.
pub const TABLE_ROWS: &'static str = "tr";

/// Cells of a row.
pub const TABLE_CELLS: &'static str = "td";

/// Position of the ranking among the tables of a pool page.
pub const RANKING_TABLE: usize = 2;

/// Position of the match results among the tables of a pool page.
pub const MATCH_TABLE: usize = 3;

/// Column of the match date.
pub const DATE_CELL: usize = 1;

/// Column of the match hour.
pub const HOUR_CELL: usize = 2;

/// Column of the home team.
pub const FIRST_TEAM_CELL: usize = 3;

/// Column of the visiting team.
pub const SECOND_TEAM_CELL: usize = 5;

/// Column of the home team's sets once played; a venue name before that.
pub const LHS_SCORE_CELL: usize = 6;

/// Column of the visiting team's sets once played; the venue before that.
pub const RHS_SCORE_CELL: usize = 7;

/// Fewest cells that a match row must have.
pub const MATCH_ROW_CELLS: usize = 8;

/// Team name that stands for a slot not yet assigned.
pub const UNASSIGNED_TEAM: &'static str = "xxxxx";

} // verus!
