//! Settings of the provided services, and article identifiers.

use std::collections::VecDeque;

use vstd::prelude::*;
use vstd::string::*;

verus! {

/// Where articles are kept.
#[derive(Debug)]
pub struct ArticlesConfig {
    pub article_rootpath: String,
    pub articles_path: String,
}

impl Default for ArticlesConfig {
    fn default() -> (r: Self)
        ensures
            r.article_rootpath@ == "./article"@,
            r.articles_path@ == "./entries"@,
    {
        ArticlesConfig {
            article_rootpath: String::from_str("./article"),
            articles_path: String::from_str("./entries"),
        }
    }
}

/// Where static assets are kept.
#[derive(Debug)]
pub struct AssetConfig {
    pub assets_rootpath: String,
}

impl Default for AssetConfig {
    fn default() -> (r: Self)
        ensures
            r.assets_rootpath@ == "./assets"@,
    {
        AssetConfig { assets_rootpath: String::from_str("./assets") }
    }
}

/// Settings of all services.
#[derive(Debug)]
pub struct ServiceConfig {
    pub articles: ArticlesConfig,
    pub assets: AssetConfig,
}

impl Default for ServiceConfig {
    fn default() -> (r: Self)
        ensures
            r.articles.article_rootpath@ == "./article"@,
            r.articles.articles_path@ == "./entries"@,
            r.assets.assets_rootpath@ == "./assets"@,
    {
        ServiceConfig { articles: ArticlesConfig::default(), assets: AssetConfig::default() }
    }
}

/// Identifier of an article.
#[derive(Debug, Clone, Copy, PartialEq, Eq, Hash, Structural)]
pub struct ArticleID(pub u64);

/// The next article identifier to hand out.
#[derive(Debug, PartialEq, Eq, Structural)]
pub struct ArticleIDMaster(pub u64);

impl Default for ArticleIDMaster {
    fn default() -> (r: Self)
        ensures
            r.0 == 0,
    {
        ArticleIDMaster(0)
    }
}

impl ArticleIDMaster {
    /// Hands out the current identifier and advances to the next one,
    /// wrapping past the largest.
    pub fn issue(&mut self) -> (r: ArticleID)
        ensures
            r.0 == old(self).0,
            final(self).0 == if old(self).0 == u64::MAX { 0 } else { (old(self).0 + 1) as u64 },
    {
        let r = ArticleID(self.0);
        self.0 = self.0.wrapping_add(1);
        r
    }
}

/// An article.
#[derive(Debug)]
pub struct ArticleData {
    pub id: ArticleID,
    pub title: String,
    pub body: String,
}

/// The identifier table of the article service: article identifiers to
/// slots, held in a hashbrown map.
#[verifier::external_body]
pub struct ArticleTable {
    map: hashbrown::HashMap<u64, usize>,
}

/// What the identifier table maps.
pub uninterp spec fn table_entries(t: ArticleTable) -> Map<u64, usize>;

impl ArticleTable {
    /// Relies on `hashbrown::HashMap::new`: an empty map.
    #[verifier::external_body]
    fn new() -> (r: ArticleTable)
        ensures
            table_entries(r).dom().is_empty(),
    {
        ArticleTable { map: hashbrown::HashMap::new() }
    }

    /// Relies on `hashbrown::HashMap::get`: the value under `k`, if any.
    #[verifier::external_body]
    fn get(&self, k: u64) -> (r: Option<usize>)
        ensures
            r == (if table_entries(*self).contains_key(k) {
                Some(table_entries(*self)[k])
            } else {
                None
            }),
    {
        self.map.get(&k).copied()
    }

    /// Relies on `hashbrown::HashMap::insert`: sets the value under `k` and
    /// returns the one it replaced.
    #[verifier::external_body]
    fn insert(&mut self, k: u64, v: usize) -> (r: Option<usize>)
        ensures
            table_entries(*final(self)) == table_entries(*old(self)).insert(k, v),
            r == (if table_entries(*old(self)).contains_key(k) {
                Some(table_entries(*old(self))[k])
            } else {
                None
            }),
    {
        self.map.insert(k, v)
    }

    /// Relies on `hashbrown::HashMap::remove`: drops `k` and returns its value.
    #[verifier::external_body]
    fn remove(&mut self, k: u64) -> (r: Option<usize>)
        ensures
            table_entries(*final(self)) == table_entries(*old(self)).remove(k),
            r == (if table_entries(*old(self)).contains_key(k) {
                Some(table_entries(*old(self))[k])
            } else {
                None
            }),
    {
        self.map.remove(&k)
    }

    /// Relies on `hashbrown::HashMap::keys`: every key once, in the map's
    /// own order.
    #[verifier::external_body]
    fn keys(&self) -> (r: Vec<u64>)
        ensures
            r@.no_duplicates(),
            forall|k: u64| table_entries(*self).contains_key(k) <==> r@.contains(k),
    {
        self.map.keys().copied().collect()
    }
}

/// The articles on offer, each in a slot; freed slots are reused first.
pub struct ArticleService {
    table: ArticleTable,
    articles: Vec<Option<ArticleData>>,
    remove_queue: VecDeque<usize>,
}

impl ArticleService {
    pub closed spec fn slots(&self) -> Map<u64, usize> {
        table_entries(self.table)
    }

    /// Every listed identifier names the filled slot holding its article,
    /// every filled slot is listed, and the free list holds distinct empty
    /// slots.
    pub closed spec fn well_formed(&self) -> bool {
        &&& forall|k: u64| #[trigger]
            self.slots().contains_key(k) ==> {
                let i = self.slots()[k] as int;
                &&& i < self.articles@.len()
                &&& self.articles@[i] is Some
                &&& self.articles@[i]->0.id.0 == k
            }
        &&& forall|i: int|
            0 <= i < self.articles@.len() && (#[trigger] self.articles@[i]) is Some ==> {
                let k = self.articles@[i]->0.id.0;
                self.slots().contains_key(k) && self.slots()[k] == i
            }
        &&& forall|j: int|
            0 <= j < self.remove_queue@.len() ==> {
                let i = #[trigger] self.remove_queue@[j] as int;
                i < self.articles@.len() && self.articles@[i] is None
            }
        &&& self.remove_queue@.no_duplicates()
    }

    /// The title and body of each article on offer, by identifier.
    pub closed spec fn live(&self) -> Map<u64, (Seq<char>, Seq<char>)> {
        Map::new(
            |k: u64| self.slots().contains_key(k),
            |k: u64|
                {
                    let a = self.articles@[self.slots()[k] as int]->0;
                    (a.title@, a.body@)
                },
        )
    }

    /// A service with no articles.
    pub fn new() -> (r: Self)
        ensures
            r.well_formed(),
            r.live() == Map::<u64, (Seq<char>, Seq<char>)>::empty(),
    {
        let r = ArticleService {
            table: ArticleTable::new(),
            articles: Vec::new(),
            remove_queue: VecDeque::new(),
        };
        assert(r.live() =~= Map::<u64, (Seq<char>, Seq<char>)>::empty());
        r
    }

    /// Offers an article under `aid`, in a freed slot if there is one.
    /// Refused, with nothing changed, when `aid` is already on offer.
    pub fn post(&mut self, aid: ArticleID, title: String, body: String) -> (r: bool)
        requires
            old(self).well_formed(),
        ensures
            final(self).well_formed(),
            r == !old(self).live().contains_key(aid.0),
            r ==> final(self).live() == old(self).live().insert(aid.0, (title@, body@)),
            !r ==> final(self).live() == old(self).live(),
    {
        if self.table.get(aid.0).is_some() {
            return false;
        }
        let ghost old_slots = self.slots();
        let ghost old_articles = self.articles@;
        let ghost old_queue = self.remove_queue@;
        let ghost new_item = (title@, body@);
        let index = match self.remove_queue.pop_front() {
            Some(index) => {
                assert(old_queue[0] == index);
                self.articles[index] = Some(ArticleData { id: aid, title, body });
                index
            },
            None => {
                let i = self.articles.len();
                self.articles.push(Some(ArticleData { id: aid, title, body }));
                i
            },
        };
        self.table.insert(aid.0, index);
        proof {
            assert(old_queue.len() > 0 ==> self.remove_queue@ == old_queue.drop_first());
            assert forall|k: u64| #[trigger] self.slots().contains_key(k) implies {
                let i = self.slots()[k] as int;
                &&& i < self.articles@.len()
                &&& self.articles@[i] is Some
                &&& self.articles@[i]->0.id.0 == k
            } by {
                if k != aid.0 {
                    assert(old_slots.contains_key(k));
                }
            }
            assert forall|i: int|
                0 <= i < self.articles@.len() && (#[trigger] self.articles@[i]) is Some implies {
                let k = self.articles@[i]->0.id.0;
                self.slots().contains_key(k) && self.slots()[k] == i
            } by {
                if i != index {
                    assert(old_articles[i] is Some);
                }
            }
            assert forall|j: int| 0 <= j < self.remove_queue@.len() implies {
                let i = #[trigger] self.remove_queue@[j] as int;
                i < self.articles@.len() && self.articles@[i] is None
            } by {
                assert(self.remove_queue@[j] == old_queue[j + 1]);
                assert(old_queue[j + 1] != old_queue[0]);
            }
            assert(self.remove_queue@.no_duplicates());
            assert(self.live() =~= old(self).live().insert(aid.0, new_item)) by {
                assert forall|k: u64| #[trigger] self.live().contains_key(k) && k != aid.0
                    implies self.live()[k] == old(self).live()[k] by {
                    assert(old_slots.contains_key(k));
                    assert(old_slots[k] != index);
                }
            }
        }
        true
    }

    /// Withdraws the article under `aid`, freeing its slot.
    pub fn remove(&mut self, aid: &ArticleID) -> (r: Option<ArticleData>)
        requires
            old(self).well_formed(),
        ensures
            final(self).well_formed(),
            final(self).live() == old(self).live().remove(aid.0),
            match r {
                Some(a) => old(self).live().contains_key(aid.0) && a.id == *aid
                    && (a.title@, a.body@) == old(self).live()[aid.0],
                None => !old(self).live().contains_key(aid.0),
            },
    {
        let ghost old_slots = self.slots();
        let ghost old_articles = self.articles@;
        let ghost old_queue = self.remove_queue@;
        let index = match self.table.remove(aid.0) {
            Some(i) => i,
            None => {
                assert(self.live() =~= old(self).live().remove(aid.0));
                return None;
            },
        };
        let art = self.articles[index].take();
        self.remove_queue.push_back(index);
        proof {
            assert forall|k: u64| #[trigger] self.slots().contains_key(k) implies {
                let i = self.slots()[k] as int;
                &&& i < self.articles@.len()
                &&& self.articles@[i] is Some
                &&& self.articles@[i]->0.id.0 == k
            } by {
                assert(old_slots.contains_key(k));
                assert(old_slots[k] != index);
            }
            assert forall|i: int|
                0 <= i < self.articles@.len() && (#[trigger] self.articles@[i]) is Some implies {
                let k = self.articles@[i]->0.id.0;
                self.slots().contains_key(k) && self.slots()[k] == i
            } by {
                assert(old_articles[i] is Some);
            }
            assert forall|j: int| 0 <= j < self.remove_queue@.len() implies {
                let i = #[trigger] self.remove_queue@[j] as int;
                i < self.articles@.len() && self.articles@[i] is None
            } by {
                if j < old_queue.len() {
                    assert(self.remove_queue@[j] == old_queue[j]);
                }
            }
            assert forall|a: int, b: int|
                0 <= a < self.remove_queue@.len() && 0 <= b < self.remove_queue@.len() && a != b
                implies self.remove_queue@[a] != self.remove_queue@[b] by {
                if a < old_queue.len() && b < old_queue.len() {
                } else if a < old_queue.len() {
                    assert(old_articles[old_queue[a] as int] is None);
                } else if b < old_queue.len() {
                    assert(old_articles[old_queue[b] as int] is None);
                }
            }
            assert(self.live() =~= old(self).live().remove(aid.0)) by {
                assert forall|k: u64| #[trigger] self.live().contains_key(k)
                    implies self.live()[k] == old(self).live()[k] by {
                    assert(old_slots.contains_key(k));
                    assert(old_slots[k] != index);
                }
            }
        }
        art
    }

    /// The article under `aid`, if it is on offer.
    pub fn request(&self, aid: &ArticleID) -> (r: Option<&ArticleData>)
        requires
            self.well_formed(),
        ensures
            match r {
                Some(a) => self.live().contains_key(aid.0) && a.id == *aid
                    && (a.title@, a.body@) == self.live()[aid.0],
                None => !self.live().contains_key(aid.0),
            },
    {
        match self.table.get(aid.0) {
            Some(i) => self.articles[i].as_ref(),
            None => None,
        }
    }

    /// Every article on offer, once each, in the table's order.
    pub fn iter(&self) -> (r: Vec<&ArticleData>)
        requires
            self.well_formed(),
        ensures
            forall|i: int|
                0 <= i < r@.len() ==> self.live().contains_key(#[trigger] r@[i].id.0)
                    && (r@[i].title@, r@[i].body@) == self.live()[r@[i].id.0],
            forall|k: u64|
                self.live().contains_key(k) ==> exists|i: int|
                    0 <= i < r@.len() && #[trigger] r@[i].id.0 == k,
            forall|i: int, j: int| 0 <= i < j < r@.len() ==> r@[i].id != r@[j].id,
    {
        let keys = self.table.keys();
        let mut out: Vec<&ArticleData> = Vec::new();
        for n in 0..keys.len()
            invariant
                self.well_formed(),
                keys@.no_duplicates(),
                forall|k: u64| self.slots().contains_key(k) <==> keys@.contains(k),
                out@.len() == n,
                forall|i: int| 0 <= i < n ==> (#[trigger] out@[i]).id.0 == keys@[i],
                forall|i: int|
                    0 <= i < n ==> self.live().contains_key(#[trigger] out@[i].id.0)
                        && (out@[i].title@, out@[i].body@) == self.live()[out@[i].id.0],
        {
            let k = keys[n];
            assert(keys@.contains(k));
            let i = self.table.get(k).unwrap();
            let a = self.articles[i].as_ref().unwrap();
            out.push(a);
        }
        assert(out@.len() == keys@.len());
        proof {
            assert forall|k: u64| self.live().contains_key(k) implies exists|i: int|
                0 <= i < out@.len() && #[trigger] out@[i].id.0 == k by {
                assert(self.slots().contains_key(k));
                assert(keys@.contains(k));
                let i = choose|i: int| 0 <= i < keys@.len() && keys@[i] == k;
                assert(out@[i].id.0 == k);
            }
        }
        out
    }
}

} // verus!
