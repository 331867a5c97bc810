//! What the user prefers for each device.
use std::collections::HashMap;
use vstd::prelude::*;

verus! {

/// The preferences by public address of a device and by name.
pub type Preferences = Map<Seq<char>, Map<Seq<char>, bool>>;

/// The preferences that `text` writes in JSON, if it writes such, as
/// `serde_json::from_str` reads them.
pub uninterp spec fn written_preferences(text: Seq<char>) -> Option<Preferences>;

/// The rows of preferences: for each device its named switches.
pub type Rows = Vec<(String, Vec<(String, bool)>)>;

/// Whether `row` holds exactly the switches of `switches`, each once.
pub open spec fn row_holds(row: Seq<(String, bool)>, switches: Map<Seq<char>, bool>) -> bool {
    &&& forall|i: int, j: int|
        0 <= i < j < row.len() ==> (#[trigger] row[i]).0@ != (#[trigger] row[j]).0@
    &&& forall|i: int|
        0 <= i < row.len() ==> switches.contains_pair((#[trigger] row[i]).0@, row[i].1)
    &&& forall|name: Seq<char>| #[trigger]
        switches.contains_key(name) ==> exists|i: int|
            0 <= i < row.len() && (#[trigger] row[i]).0@ == name
}

/// Whether `rows` hold exactly `preferences`, each device once.
pub open spec fn rows_hold(rows: Seq<(String, Vec<(String, bool)>)>, preferences: Preferences) -> bool {
    &&& forall|i: int, j: int|
        0 <= i < j < rows.len() ==> (#[trigger] rows[i]).0@ != (#[trigger] rows[j]).0@
    &&& forall|i: int|
        0 <= i < rows.len() ==> preferences.contains_key((#[trigger] rows[i]).0@) && row_holds(
            rows[i].1@,
            preferences[rows[i].0@],
        )
    &&& forall|mac: Seq<char>| #[trigger]
        preferences.contains_key(mac) ==> exists|i: int|
            0 <= i < rows.len() && (#[trigger] rows[i]).0@ == mac
}

/// Calls `serde_json::from_str` for a map of maps of switches, and lists the
/// maps. Trusted: whether the text is read, and what maps come of it, depends
/// on the text alone. Which texts are read is not stated, nor in what order the
/// maps are listed.
#[verifier::external_body]
fn read_rows(text: &str) -> (r: Option<Rows>)
    ensures
        match (r, written_preferences(text@)) {
            (Some(rows), Some(preferences)) => rows_hold(rows@, preferences),
            (None, None) => true,
            _ => false,
        },
{
    let maps: HashMap<String, HashMap<String, bool>> = serde_json::from_str(text).ok()?;
    Some(maps.into_iter().map(|(mac, switches)| (mac, switches.into_iter().collect())).collect())
}

/// Whether connecting on one's own is switched off for `mac`.
pub open spec fn switched_off(preferences: Preferences, mac: Seq<char>) -> bool {
    preferences.contains_key(mac) && preferences[mac].contains_pair("autoConnect"@, false)
}

/// Whether a row switches connecting on one's own off.
pub open spec fn row_switches_off(row: Seq<(String, bool)>) -> bool {
    exists|i: int|
        0 <= i < row.len() && (#[trigger] row[i]).0@ == "autoConnect"@ && !row[i].1
}

/// Whether a row for `mac` switches connecting on one's own off.
pub open spec fn rows_switch_off(
    rows: Seq<(String, Vec<(String, bool)>)>,
    mac: Seq<char>,
) -> bool {
    exists|i: int|
        0 <= i < rows.len() && (#[trigger] rows[i]).0@ == mac && row_switches_off(rows[i].1@)
}

/// Preferences switch a device off exactly if they map it to switches that map
/// `autoConnect` to `false`, whatever its text.
pub proof fn a_device_is_off_by_its_switch(preferences: Preferences, mac: Seq<char>)
    ensures
        switched_off(preferences, mac) <==> {
            &&& preferences.contains_key(mac)
            &&& preferences[mac].contains_key("autoConnect"@)
            &&& preferences[mac]["autoConnect"@] == false
        },
{
}

/// Rows switch a device off exactly if one of them is for that device and holds
/// the switch `autoConnect` turned to `false`, whatever its text.
pub proof fn rows_switch_off_by_a_false_switch(
    rows: Seq<(String, Vec<(String, bool)>)>,
    mac: Seq<char>,
)
    ensures
        rows_switch_off(rows, mac) <==> exists|i: int, j: int|
            {
                &&& 0 <= i < rows.len()
                &&& 0 <= j < rows[i].1@.len()
                &&& rows[i].0@ == mac
                &&& (#[trigger] rows[i].1@[j]).0@ == "autoConnect"@
                &&& !rows[i].1@[j].1
            },
{
    if rows_switch_off(rows, mac) {
        let i = choose|i: int|
            0 <= i < rows.len() && (#[trigger] rows[i]).0@ == mac && row_switches_off(rows[i].1@);
        let row = rows[i].1@;
        let j = choose|j: int|
            0 <= j < row.len() && (#[trigger] row[j]).0@ == "autoConnect"@ && !row[j].1;
        assert(rows[i].1@[j].0@ == "autoConnect"@);
    }
    if exists|i: int, j: int|
        {
            &&& 0 <= i < rows.len()
            &&& 0 <= j < rows[i].1@.len()
            &&& rows[i].0@ == mac
            &&& (#[trigger] rows[i].1@[j]).0@ == "autoConnect"@
            &&& !rows[i].1@[j].1
        } {
        let (i, j) = choose|i: int, j: int|
            {
                &&& 0 <= i < rows.len()
                &&& 0 <= j < rows[i].1@.len()
                &&& rows[i].0@ == mac
                &&& (#[trigger] rows[i].1@[j]).0@ == "autoConnect"@
                &&& !rows[i].1@[j].1
            };
        assert(row_switches_off(rows[i].1@));
        assert(rows[i].0@ == mac);
    }
}

/// Rows that hold preferences hold, for each device and each name, the switch
/// that the preferences hold, and no other.
pub proof fn rows_hold_each_switch(
    rows: Seq<(String, Vec<(String, bool)>)>,
    preferences: Preferences,
    mac: Seq<char>,
    name: Seq<char>,
    on: bool,
)
    requires
        rows_hold(rows, preferences),
    ensures
        preferences.contains_key(mac) && preferences[mac].contains_key(name) && preferences[mac][name]
            == on <==> exists|i: int, j: int|
            {
                &&& 0 <= i < rows.len()
                &&& 0 <= j < rows[i].1@.len()
                &&& rows[i].0@ == mac
                &&& (#[trigger] rows[i].1@[j]).0@ == name
                &&& rows[i].1@[j].1 == on
            },
{
    if preferences.contains_key(mac) && preferences[mac].contains_key(name)
        && preferences[mac][name] == on {
        let i = choose|i: int| 0 <= i < rows.len() && (#[trigger] rows[i]).0@ == mac;
        let row = rows[i].1@;
        assert(row_holds(row, preferences[mac]));
        let j = choose|j: int| 0 <= j < row.len() && (#[trigger] row[j]).0@ == name;
        assert(preferences[mac].contains_pair(row[j].0@, row[j].1));
        assert(rows[i].1@[j].0@ == name);
    }
    if exists|i: int, j: int|
        {
            &&& 0 <= i < rows.len()
            &&& 0 <= j < rows[i].1@.len()
            &&& rows[i].0@ == mac
            &&& (#[trigger] rows[i].1@[j]).0@ == name
            &&& rows[i].1@[j].1 == on
        } {
        let (i, j) = choose|i: int, j: int|
            {
                &&& 0 <= i < rows.len()
                &&& 0 <= j < rows[i].1@.len()
                &&& rows[i].0@ == mac
                &&& (#[trigger] rows[i].1@[j]).0@ == name
                &&& rows[i].1@[j].1 == on
            };
        assert(preferences.contains_key(rows[i].0@));
        assert(preferences[mac].contains_pair(rows[i].1@[j].0@, rows[i].1@[j].1));
    }
}

fn row_is_off(row: &Vec<(String, bool)>) -> (r: bool)
    ensures
        r == row_switches_off(row@),
        r <==> exists|i: int|
            0 <= i < row@.len() && (#[trigger] row@[i]).0@ == "autoConnect"@ && !row@[i].1,
{
    let name: String = "autoConnect".to_owned();
    let n: usize = row.len();
    let mut i: usize = 0;
    while i < n
        invariant
            i <= n,
            n == row@.len(),
            name@ == "autoConnect"@,
            forall|j: int|
                0 <= j < i ==> (#[trigger] row@[j]).0@ != "autoConnect"@ || row@[j].1,
        decreases n - i,
    {
        if row[i].0 == name && !row[i].1 {
            return true;
        }
        i = i + 1;
    }
    false
}

/// Whether to connect to `mac` on one's own, going by `rows`: yes, unless a row
/// for it switches that off.
pub fn auto_connect_in(rows: &Rows, mac: &str) -> (r: bool)
    ensures
        r == !rows_switch_off(rows@, mac@),
        !r <==> exists|i: int, j: int|
            {
                &&& 0 <= i < rows@.len()
                &&& 0 <= j < rows@[i].1@.len()
                &&& rows@[i].0@ == mac@
                &&& (#[trigger] rows@[i].1@[j]).0@ == "autoConnect"@
                &&& !rows@[i].1@[j].1
            },
{
    proof {
        rows_switch_off_by_a_false_switch(rows@, mac@);
    }
    let key: String = mac.to_owned();
    let n: usize = rows.len();
    let mut i: usize = 0;
    while i < n
        invariant
            i <= n,
            n == rows@.len(),
            key@ == mac@,
            forall|j: int|
                0 <= j < i ==> (#[trigger] rows@[j]).0@ != mac@ || !row_switches_off(rows@[j].1@),
        decreases n - i,
    {
        if rows[i].0 == key && row_is_off(&rows[i].1) {
            return false;
        }
        i = i + 1;
    }
    true
}

/// Rows switch off exactly what the preferences that they hold switch off.
proof fn lemma_rows_switch_off(
    rows: Seq<(String, Vec<(String, bool)>)>,
    preferences: Preferences,
    mac: Seq<char>,
)
    requires
        rows_hold(rows, preferences),
    ensures
        rows_switch_off(rows, mac) == switched_off(preferences, mac),
{
    if switched_off(preferences, mac) {
        let i = choose|i: int| 0 <= i < rows.len() && (#[trigger] rows[i]).0@ == mac;
        let row = rows[i].1@;
        assert(row_holds(row, preferences[mac]));
        assert(preferences[mac].contains_key("autoConnect"@));
        let j = choose|j: int| 0 <= j < row.len() && (#[trigger] row[j]).0@ == "autoConnect"@;
        assert(preferences[mac].contains_pair(row[j].0@, row[j].1));
        assert(row_switches_off(row));
        assert(rows[i].0@ == mac);
    }
    if rows_switch_off(rows, mac) {
        let i = choose|i: int|
            0 <= i < rows.len() && (#[trigger] rows[i]).0@ == mac && row_switches_off(rows[i].1@);
        let row = rows[i].1@;
        let j = choose|j: int|
            0 <= j < row.len() && (#[trigger] row[j]).0@ == "autoConnect"@ && !row[j].1;
        assert(preferences[mac].contains_pair(row[j].0@, row[j].1));
    }
}

/// Whether to connect to `mac` on one's own, going by the stored preferences
/// if there are any: yes, unless they are readable and switch that off.
pub fn auto_connect_preference(stored: &Option<String>, mac: &str) -> (r: bool)
    ensures
        r == match *stored {
            None => true,
            Some(text) => match written_preferences(text@) {
                None => true,
                Some(preferences) => !switched_off(preferences, mac@),
            },
        },
        r == match *stored {
            None => true,
            Some(text) => match written_preferences(text@) {
                None => true,
                Some(preferences) => if preferences.contains_key(mac@)
                    && preferences[mac@].contains_key("autoConnect"@) {
                    preferences[mac@]["autoConnect"@]
                } else {
                    true
                },
            },
        },
{
    match stored {
        None => true,
        Some(text) => match read_rows(text.as_str()) {
            None => true,
            Some(rows) => {
                proof {
                    lemma_rows_switch_off(
                        rows@,
                        written_preferences(text@).unwrap(),
                        mac@,
                    );
                }
                auto_connect_in(&rows, mac)
            },
        },
    }
}

} // verus!
