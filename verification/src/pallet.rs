//! The registry itself: the three tables behind the four operations, each
//! operation specified as a transition on the registry's mathematical state.

use vstd::prelude::*;
use crate::hashing::{tag_id, tag_id_of, tag_ids_of, vector_id, vector_id_of};
use crate::model::{
    author_known, author_list_after, author_ok, empty_registry, payload_ok, prune_count,
    prune_post, store_accepts, store_error, store_event, store_post, tag_known, tags_after,
    tags_ok, vectors_after_prune, EventModel, RegistryModel,
};
use crate::record::{WeightData, WeightDataModel};
use crate::table::{clone_bytes, Table};

verus! {

/// The bounds the registry is deployed with, fixed at construction.
#[derive(Clone, Copy, Debug)]
pub struct Config {
    pub max_vectors: u32,
    pub max_vector_length: u32,
    pub max_tag_length: u32,
    pub max_tags_per_vector: u32,
}

/// The error kinds an operation can surface.
#[derive(Clone, Copy, Debug, PartialEq, Eq, Structural)]
pub enum Error {
    /// No entry for the author, or the author's vector limit is hit.
    VectorNotFound,
    /// The tag's digest is not a key of the tag store.
    TagNotFound,
    /// An empty identifier list was handed to the prune operation.
    NothingToPrune,
    /// A tag is over the length bound, or there are too many tags.
    TagTooLong,
    /// The maximum number of vectors is reached.
    MaxVectorsReached,
    /// The payload is over the length bound.
    InvalidVectorData,
}

/// The notifications a successful operation hands back for the host to emit.
#[derive(Debug, PartialEq, Eq)]
pub enum Event {
    /// A record was stored under the given identifier.
    VectorStored { vector_id: Vec<u8>, author: u64 },
    /// A prune removed the given number of records.
    VectorsPruned { count: u64 },
}

impl View for Event {
    type V = EventModel;

    open spec fn view(&self) -> EventModel {
        match self {
            Event::VectorStored { vector_id, author } => EventModel::VectorStored {
                vector_id: vector_id@,
                author: *author,
            },
            Event::VectorsPruned { count } => EventModel::VectorsPruned { count: *count as nat },
        }
    }
}

/// The vector registry: a content store, a tag store and an author index,
/// all bounded by the deployed configuration.
pub struct Pallet {
    max_vectors: u32,
    max_vector_length: u32,
    max_tag_length: u32,
    max_tags_per_vector: u32,
    vectors: Table<Vec<u8>, WeightData>,
    tags: Table<Vec<u8>, Vec<u8>>,
    author_vectors: Table<u64, Vec<Vec<u8>>>,
}

impl View for Pallet {
    type V = RegistryModel;

    closed spec fn view(&self) -> RegistryModel {
        RegistryModel {
            max_vectors: self.max_vectors,
            max_vector_length: self.max_vector_length,
            max_tag_length: self.max_tag_length,
            max_tags_per_vector: self.max_tags_per_vector,
            vectors: self.vectors@,
            tags: self.tags@,
            author_vectors: self.author_vectors@,
        }
    }
}

impl Pallet {
    /// The registry's internal well-formedness: each table's keys are
    /// pairwise distinct.
    pub closed spec fn wf(&self) -> bool {
        self.vectors.wf() && self.tags.wf() && self.author_vectors.wf()
    }

    /// A fresh registry with the given bounds and no entries.
    pub fn new(config: Config) -> (r: Pallet)
        ensures
            r.wf(),
            r@ == empty_registry(
                config.max_vectors,
                config.max_vector_length,
                config.max_tag_length,
                config.max_tags_per_vector,
            ),
    {
        let r = Pallet {
            max_vectors: config.max_vectors,
            max_vector_length: config.max_vector_length,
            max_tag_length: config.max_tag_length,
            max_tags_per_vector: config.max_tags_per_vector,
            vectors: Table::new(),
            tags: Table::new(),
            author_vectors: Table::new(),
        };
        proof {
            assert(r@ =~= empty_registry(
                config.max_vectors,
                config.max_vector_length,
                config.max_tag_length,
                config.max_tags_per_vector,
            ));
        }
        r
    }

    /// Check every tag against the length and count bounds, deriving the
    /// tag identifiers in submission order.
    #[verifier::loop_isolation(false)]
    fn derive_tag_refs(&self, tags: &Vec<Vec<u8>>) -> (r: Result<Vec<Vec<u8>>, Error>)
        ensures
            match r {
                Ok(refs) => {
                    &&& tags_ok(self@, tags.deep_view())
                    &&& refs.deep_view() == tag_ids_of(tags.deep_view())
                    &&& refs@.len() == tags@.len()
                },
                Err(e) => !tags_ok(self@, tags.deep_view()) && e == Error::TagTooLong,
            },
    {
        let ghost ts = tags.deep_view();
        if tags.len() > self.max_tags_per_vector as usize {
            return Err(Error::TagTooLong);
        }
        let n = tags.len();
        let mut tag_refs: Vec<Vec<u8>> = Vec::new();
        let mut i: usize = 0;
        while i < n
            invariant
                0 <= i <= n,
                tag_refs@.len() == i,
                forall|j: int| 0 <= j < i ==> #[trigger] tag_refs@[j]@ == tag_id_of(ts[j]),
                forall|j: int| 0 <= j < i ==> #[trigger] ts[j].len() <= self@.max_tag_length,
            decreases n - i,
        {
            proof {
                assert(ts[i as int] =~= tags@[i as int]@);
            }
            if tags[i].len() > self.max_tag_length as usize {
                return Err(Error::TagTooLong);
            }
            let id = tag_id(&tags[i]);
            tag_refs.push(id);
            i += 1;
        }
        proof {
            assert forall|j: int| 0 <= j < n implies tag_refs.deep_view()[j] == tag_ids_of(ts)[j] by {
                assert(tag_refs@[j].deep_view() =~= tag_refs@[j]@);
            }
            assert(tag_refs.deep_view() =~= tag_ids_of(ts));
        }
        Ok(tag_refs)
    }

    /// Intern every tag under its identifier, touching nothing else.
    #[verifier::loop_isolation(false)]
    fn intern_tags(&mut self, tags: &Vec<Vec<u8>>, tag_refs: &Vec<Vec<u8>>)
        requires
            old(self).wf(),
            tag_refs.deep_view() == tag_ids_of(tags.deep_view()),
            tag_refs@.len() == tags@.len(),
        ensures
            final(self).wf(),
            final(self).tags@ == tags_after(old(self).tags@, tags.deep_view()),
            final(self).vectors == old(self).vectors,
            final(self).author_vectors == old(self).author_vectors,
            final(self).max_vectors == old(self).max_vectors,
            final(self).max_vector_length == old(self).max_vector_length,
            final(self).max_tag_length == old(self).max_tag_length,
            final(self).max_tags_per_vector == old(self).max_tags_per_vector,
    {
        let ghost ts = tags.deep_view();
        let ghost tm0 = self.tags@;
        let n = tags.len();
        let mut i: usize = 0;
        while i < n
            invariant
                0 <= i <= n,
                self.tags.wf(),
                self.tags@ == tags_after(tm0, ts.take(i as int)),
                self.vectors == old(self).vectors,
                self.author_vectors == old(self).author_vectors,
                self.max_vectors == old(self).max_vectors,
                self.max_vector_length == old(self).max_vector_length,
                self.max_tag_length == old(self).max_tag_length,
                self.max_tags_per_vector == old(self).max_tags_per_vector,
            decreases n - i,
        {
            let t_content = clone_bytes(&tags[i]);
            let t_key = clone_bytes(&tag_refs[i]);
            proof {
                assert(t_key.deep_view() =~= t_key@);
                assert(t_content.deep_view() =~= t_content@);
                assert(tag_refs@[i as int].deep_view() =~= tag_refs@[i as int]@);
                assert(tag_refs.deep_view()[i as int] == tag_id_of(ts[i as int]));
                assert(tags@[i as int].deep_view() =~= tags@[i as int]@);
                assert(t_key.deep_view() == tag_id_of(ts[i as int]));
                assert(t_content.deep_view() == ts[i as int]);
            }
            self.tags.insert(t_key, t_content);
            proof {
                assert(ts.take(i + 1).drop_last() =~= ts.take(i as int));
                assert(ts.take(i + 1).last() == ts[i as int]);
                assert(self.tags@ =~= tags_after(tm0, ts.take(i + 1)));
            }
            i += 1;
        }
        proof {
            assert(ts.take(n as int) =~= ts);
        }
    }

    /// Append the identifier to the author's list, creating the entry if
    /// the author has none, touching nothing else.
    fn append_author_entry(&mut self, author: u64, vid: &Vec<u8>)
        requires
            old(self).wf(),
        ensures
            final(self).wf(),
            final(self).author_vectors@ == old(self).author_vectors@.insert(
                author,
                if old(self).author_vectors@.dom().contains(author) {
                    old(self).author_vectors@[author].push(vid@)
                } else {
                    seq![vid@]
                },
            ),
            final(self).vectors == old(self).vectors,
            final(self).tags == old(self).tags,
            final(self).max_vectors == old(self).max_vectors,
            final(self).max_vector_length == old(self).max_vector_length,
            final(self).max_tag_length == old(self).max_tag_length,
            final(self).max_tags_per_vector == old(self).max_tags_per_vector,
    {
        let ghost am0 = self.author_vectors@;
        let mut list: Vec<Vec<u8>> = match self.author_vectors.remove(&author) {
            Some(l) => l,
            None => Vec::new(),
        };
        let ghost l0 = list.deep_view();
        let ghost lv0 = list@;
        list.push(clone_bytes(vid));
        proof {
            assert forall|j: int| 0 <= j < list@.len() implies list.deep_view()[j] == l0.push(
                vid@,
            )[j] by {
                if j < lv0.len() {
                    assert(list@[j] == lv0[j]);
                } else {
                    assert(list@[j].deep_view() =~= list@[j]@);
                }
            }
            assert(list.deep_view() =~= l0.push(vid@));
        }
        self.author_vectors.insert(author, list);
        proof {
            if am0.dom().contains(author) {
                assert(self.author_vectors@ =~= am0.insert(author, am0[author].push(vid@)));
            } else {
                assert(l0 =~= Seq::<Seq<u8>>::empty());
                assert(l0.push(vid@) =~= seq![vid@]);
                assert(self.author_vectors@ =~= am0.insert(author, seq![vid@]));
            }
        }
    }

    /// Store the record under the given key, touching nothing else.
    fn put_record(&mut self, v_key: Vec<u8>, record: WeightData)
        requires
            old(self).wf(),
        ensures
            final(self).wf(),
            final(self).vectors@ == old(self).vectors@.insert(v_key@, record.deep_view()),
            final(self).tags == old(self).tags,
            final(self).author_vectors == old(self).author_vectors,
            final(self).max_vectors == old(self).max_vectors,
            final(self).max_vector_length == old(self).max_vector_length,
            final(self).max_tag_length == old(self).max_tag_length,
            final(self).max_tags_per_vector == old(self).max_tags_per_vector,
    {
        proof {
            assert(v_key.deep_view() =~= v_key@);
        }
        self.vectors.insert(v_key, record);
    }

    /// Validate the payload and every tag, intern the tags, append the
    /// record's identifier to the author's list and store the record; all
    /// writes happen only when every validation step passed.
    #[verifier::rlimit(100)]
    pub fn store_weight_data(
        &mut self,
        author: u64,
        payload: Vec<u8>,
        tags: Vec<Vec<u8>>,
    ) -> (r: Result<Event, Error>)
        requires
            old(self).wf(),
        ensures
            final(self).wf(),
            match r {
                Ok(ev) => {
                    &&& store_accepts(old(self)@, author, payload@, tags.deep_view())
                    &&& ev@ == store_event(author, payload@, tags.deep_view())
                    &&& final(self)@ == store_post(old(self)@, author, payload@, tags.deep_view())
                },
                Err(e) => {
                    &&& !store_accepts(old(self)@, author, payload@, tags.deep_view())
                    &&& e == store_error(old(self)@, author, payload@, tags.deep_view())
                    &&& final(self)@ == old(self)@
                },
            },
    {
        let ghost m0 = self@;
        let ghost p_s = payload@;
        let ghost ts = tags.deep_view();
        proof {
            assert(payload.deep_view() =~= p_s);
        }

        // Validation: payload bound.
        if payload.len() > self.max_vector_length as usize {
            return Err(Error::InvalidVectorData);
        }
        // Validation: tag bounds, deriving the tag identifiers.
        let tag_refs: Vec<Vec<u8>> = match self.derive_tag_refs(&tags) {
            Ok(refs) => refs,
            Err(e) => {
                return Err(e);
            },
        };
        // Validation: the author's vector limit.
        let capacity_ok: bool = match self.author_vectors.get(&author) {
            Some(list) => list.len() < self.max_vectors as usize,
            None => self.max_vectors > 0,
        };
        if !capacity_ok {
            return Err(Error::VectorNotFound);
        }
        proof {
            assert(store_accepts(m0, author, p_s, ts));
        }

        // Commit: intern every tag.
        self.intern_tags(&tags, &tag_refs);

        // Commit: the record's identifier, appended to the author's list.
        let vid = vector_id(&payload, author, &tag_refs);
        let ghost vid_s = vid@;
        proof {
            assert(vid_s == vector_id_of(p_s, author, tag_ids_of(ts)));
        }
        self.append_author_entry(author, &vid);
        proof {
            assert(self.author_vectors@ =~= m0.author_vectors.insert(
                author,
                author_list_after(m0, author, vid_s),
            ));
        }

        // Commit: the record itself, under its derived identifier.
        let v_key = clone_bytes(&vid);
        let record = WeightData { payload, author, tag_refs };
        proof {
            assert(record.deep_view() =~= (WeightDataModel {
                payload: p_s,
                author,
                tag_refs: tag_ids_of(ts),
            }));
        }
        self.put_record(v_key, record);

        let ev = Event::VectorStored { vector_id: vid, author };
        proof {
            assert(self@ =~= store_post(m0, author, p_s, ts));
            assert(ev@ == store_event(author, p_s, ts));
        }
        Ok(ev)
    }

    /// A presence probe: succeeds exactly when the digest of the tag's
    /// content is a key of the tag store.
    pub fn get_weights_by_tag(&self, tag_data: &Vec<u8>) -> (r: Result<(), Error>)
        ensures
            match r {
                Ok(u) => tag_known(self@, tag_data@),
                Err(e) => !tag_known(self@, tag_data@) && e == Error::TagNotFound,
            },
    {
        let id = tag_id(tag_data);
        proof {
            assert(id.deep_view() =~= id@);
        }
        if self.tags.contains_key(&id) {
            Ok(())
        } else {
            Err(Error::TagNotFound)
        }
    }

    /// A presence probe: succeeds exactly when the author index has an
    /// entry for the author, however many identifiers it still lists.
    pub fn get_weights_by_author(&self, author: u64) -> (r: Result<(), Error>)
        ensures
            match r {
                Ok(u) => author_known(self@, author),
                Err(e) => !author_known(self@, author) && e == Error::VectorNotFound,
            },
    {
        if self.author_vectors.contains_key(&author) {
            Ok(())
        } else {
            Err(Error::VectorNotFound)
        }
    }

    /// Remove each listed identifier from the content store, counting the
    /// ones that were present; the tag store and the author index keep
    /// every entry.
    #[verifier::loop_isolation(false)]
    pub fn prune_weight_data(&mut self, vector_ids: Vec<Vec<u8>>) -> (r: Result<Event, Error>)
        requires
            old(self).wf(),
        ensures
            final(self).wf(),
            match r {
                Ok(ev) => {
                    &&& vector_ids@.len() > 0
                    &&& ev@ == EventModel::VectorsPruned {
                        count: prune_count(old(self)@.vectors, vector_ids.deep_view()),
                    }
                    &&& final(self)@ == prune_post(old(self)@, vector_ids.deep_view())
                },
                Err(e) => {
                    &&& vector_ids@.len() == 0
                    &&& e == Error::NothingToPrune
                    &&& final(self)@ == old(self)@
                },
            },
    {
        let ghost m0 = self@;
        let ghost ids = vector_ids.deep_view();
        if vector_ids.is_empty() {
            return Err(Error::NothingToPrune);
        }
        let n = vector_ids.len();
        let mut count: u64 = 0;
        let mut i: usize = 0;
        while i < n
            invariant
                0 <= i <= n,
                count <= i,
                self.vectors.wf(),
                self.vectors@ == vectors_after_prune(m0.vectors, ids.take(i as int)),
                count as nat == prune_count(m0.vectors, ids.take(i as int)),
                self.tags == old(self).tags,
                self.author_vectors == old(self).author_vectors,
                self.max_vectors == old(self).max_vectors,
                self.max_vector_length == old(self).max_vector_length,
                self.max_tag_length == old(self).max_tag_length,
                self.max_tags_per_vector == old(self).max_tags_per_vector,
            decreases n - i,
        {
            proof {
                assert(vector_ids@[i as int].deep_view() =~= vector_ids@[i as int]@);
                assert(ids.take(i + 1).drop_last() =~= ids.take(i as int));
                assert(ids.take(i + 1).last() == ids[i as int]);
            }
            match self.vectors.remove(&vector_ids[i]) {
                Some(removed) => {
                    count = count + 1;
                },
                None => {},
            }
            i += 1;
        }
        proof {
            assert(ids.take(n as int) =~= ids);
            assert(self@ =~= prune_post(m0, ids));
        }
        Ok(Event::VectorsPruned { count })
    }
}

} // verus!
