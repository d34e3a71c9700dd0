use alexandria::fragment::{delete, list, move_frag_id, new, update};
use alexandria::models::{Bookfragment, ImageType, SoundType};
use alexandria::table::FragmentTable;

const BOOKS: [u128; 3] = [100, 200, 300];

fn fragment(id: u128, book: u128, rank: i32) -> Bookfragment {
    Bookfragment {
        id,
        content: String::from("text"),
        oneshotsoundsource: None,
        bgsoundtype: SoundType::Url,
        bgsoundsource: Some(String::from("wind.ogg")),
        imgtype: ImageType::Url,
        imgsource: Some(String::from("moor.png")),
        book,
        chapter: 1,
        rank,
    }
}

fn ranks(table: &FragmentTable, book: u128) -> Vec<i32> {
    list(table, book).unwrap().iter().map(|simple| simple.rank).collect()
}

fn ids(table: &FragmentTable, book: u128) -> Vec<u128> {
    list(table, book).unwrap().iter().map(|simple| simple.uuid).collect()
}

fn assert_strictly_ascending(table: &FragmentTable) {
    for book in BOOKS {
        let listed = ranks(table, book);
        for pair in listed.windows(2) {
            assert!(pair[0] < pair[1], "book {}: {:?}", book, listed);
        }
    }
}

/// A repeatable stream of numbers.
struct Stream(u64);

impl Stream {
    fn next(&mut self, below: u64) -> u64 {
        self.0 = self.0.wrapping_mul(6364136223846793005).wrapping_add(1442695040888963407);
        (self.0 >> 33) % below
    }
}

#[test]
fn ranks_stay_unique_through_any_sequence_of_calls() {
    let mut stream = Stream(2024);
    let mut table = FragmentTable::new();
    let mut next_id: u128 = 1;
    let mut succeeded = 0;
    for _ in 0..600 {
        let book = BOOKS[stream.next(3) as usize];
        let rank = stream.next(12) as i32 - 2;
        let id = 1 + stream.next(next_id as u64) as u128;
        let done = match stream.next(4) {
            0 => {
                next_id += 1;
                new(&mut table, fragment(next_id - 1, book, rank)).is_ok()
            }
            1 => move_frag_id(&mut table, id, rank).is_ok(),
            2 => update(&mut table, fragment(id, book, rank)).is_ok(),
            _ => delete(&mut table, id).is_ok(),
        };
        if done {
            succeeded += 1;
        }
        assert_strictly_ascending(&table);
        let listed: usize = BOOKS.iter().map(|book| ranks(&table, *book).len()).sum();
        assert_eq!(listed, table.len());
    }
    assert!(succeeded > 200);
}

#[test]
fn creations_in_every_order_leave_no_duplicate_rank() {
    let calls = [(1u128, 2), (2, 2), (3, 1), (4, 2)];
    let orders: [[usize; 4]; 6] =
        [[0, 1, 2, 3], [3, 2, 1, 0], [1, 0, 3, 2], [2, 0, 1, 3], [0, 3, 1, 2], [2, 3, 0, 1]];
    for order in orders {
        let mut table = FragmentTable::new();
        assert_eq!(new(&mut table, fragment(10, 100, 1)), Ok(1));
        assert_eq!(new(&mut table, fragment(11, 100, 2)), Ok(1));
        for at in order {
            let (id, rank) = calls[at];
            assert_eq!(new(&mut table, fragment(id, 100, rank)), Ok(1));
        }
        assert_strictly_ascending(&table);
        assert_eq!(ranks(&table, 100).len(), 6);
    }
}

#[test]
fn creations_in_a_given_order() {
    let mut table = FragmentTable::new();
    for (id, rank) in [(10, 1), (11, 2), (1, 2), (2, 2), (3, 1), (4, 2)] {
        assert_eq!(new(&mut table, fragment(id, 100, rank)), Ok(1));
    }
    assert_eq!(ids(&table, 100), vec![3, 4, 10, 2, 1, 11]);
    assert_eq!(ranks(&table, 100), vec![1, 2, 3, 4, 5, 6]);
}

#[test]
fn delete_then_list() {
    let mut table = FragmentTable::new();
    for (id, book, rank) in [(1, 100, 1), (2, 100, 2), (3, 200, 2), (4, 100, 3), (5, 100, 4)] {
        assert_eq!(new(&mut table, fragment(id, book, rank)), Ok(1));
    }
    assert_eq!(delete(&mut table, 2), Ok(()));
    assert_eq!(ids(&table, 100), vec![1, 4, 5]);
    assert_eq!(ranks(&table, 100), vec![1, 3, 4]);
    assert_eq!(ids(&table, 200), vec![3]);
    assert_eq!(ranks(&table, 200), vec![2]);
    assert!(delete(&mut table, 2).is_err());
    assert_eq!(ids(&table, 100), vec![1, 4, 5]);
    assert_eq!(ranks(&table, 100), vec![1, 3, 4]);
}

#[test]
fn listing_order() {
    let mut table = FragmentTable::new();
    for (id, rank) in [(1, 5), (2, 3), (3, 4), (4, 1), (5, 9)] {
        assert_eq!(new(&mut table, fragment(id, 100, rank)), Ok(1));
    }
    assert_eq!(move_frag_id(&mut table, 5, 2), Ok(3));
    assert_eq!(ids(&table, 100), vec![4, 5, 2, 3, 1]);
    assert_eq!(ranks(&table, 100), vec![1, 2, 5, 6, 9]);
    assert_strictly_ascending(&table);
    assert_eq!(ranks(&table, 200), Vec::<i32>::new());
}
