//! The signing loop's decisions: which field is signed next, by whom and
//! where, when the loop is done, and which signature images can be reused.
//! The caller stages each signature in the document, serializes it, has the
//! CMS signer sign the covered bytes, and reloads the fields after each round.
use crate::acro_form::{AcroForm, Widget};
use crate::error::Error;
use crate::pdf_value::ObjectId;
use crate::rectangle::Rectangle;
use crate::signature_image::{decode_field_meta, field_user_id, first_rectangle, get_rectangle_from_form};
use crate::user_signature_info::UserSignatureInfo;
use vstd::prelude::*;

verus! {

/// Fields that the loop may look at, over all rounds, before it gives up.
pub const LOOP_LIMIT: usize = 10000;

/// What the loop does with one field.
#[derive(Debug, Clone, Copy, PartialEq, Eq, Structural)]
pub enum FieldStep {
    /// Not an unsigned signature bound to a user, or no place to draw it.
    Skip,
    /// Sign it as the user at this index of the users, drawn in this rectangle.
    Sign(usize, Rectangle),
    /// It names a user who was not provided.
    UnknownUser,
}

/// What the loop finds, looking on from a field.
#[derive(Debug, Clone, Copy, PartialEq, Eq, Structural)]
pub enum Outcome {
    /// No field is left to sign.
    Done,
    /// The loop looked at too many fields.
    LoopGuard,
    /// The field at this index names a user who was not provided.
    UnknownUser(usize),
    /// The field at this index is to be signed by this user, in this rectangle.
    Sign(usize, usize, Rectangle),
}

/// The next field to sign, by whom and where.
#[derive(Debug, Clone, Copy, PartialEq, Eq, Structural)]
pub struct SigningTarget {
    /// Index of the field among the scanned fields.
    pub field: usize,
    /// The field's object, which gets the new `/V`.
    pub field_id: ObjectId,
    /// Index of the signing user among the users.
    pub user: usize,
    /// Where the signature image is drawn.
    pub rect: Rectangle,
}

/// The index of the user with id `id`; where several have it, the last one.
pub open spec fn user_index<'a>(users: Seq<UserSignatureInfo<'a>>, id: Seq<char>) -> Option<int>
    decreases users.len(),
{
    if users.len() == 0 {
        None
    } else if users.last().user_id@ == id {
        Some(users.len() - 1)
    } else {
        user_index(users.drop_last(), id)
    }
}

/// What the loop does with the field `f`. A field that is not an indirect
/// object cannot be changed by an incremental update, and is passed over.
pub open spec fn field_step<'a>(f: AcroForm, users: Seq<UserSignatureInfo<'a>>) -> FieldStep {
    if !(f.form_component is EmptySignature) || f.object_id is None {
        FieldStep::Skip
    } else {
        match f.partial_field_name {
            None => FieldStep::Skip,
            Some(n) => match field_user_id(n@) {
                None => FieldStep::Skip,
                Some(id) => match user_index(users, id) {
                    None => FieldStep::UnknownUser,
                    Some(u) => match first_rectangle(f.widgets@) {
                        None => FieldStep::Skip,
                        Some(r) => FieldStep::Sign(u as usize, r),
                    },
                },
            },
        }
    }
}

/// The loop from field `index` on, with `counter` fields looked at so far:
/// what it finds, the index it stops at and the count it reaches.
pub open spec fn run<'a>(
    fields: Seq<AcroForm>,
    users: Seq<UserSignatureInfo<'a>>,
    index: int,
    counter: int,
) -> (Outcome, int, int)
    decreases fields.len() - index,
{
    if index < 0 || index >= fields.len() {
        (Outcome::Done, index, counter)
    } else if counter + 1 >= LOOP_LIMIT {
        (Outcome::LoopGuard, index, counter + 1)
    } else {
        match field_step(fields[index], users) {
            FieldStep::Skip => run(fields, users, index + 1, counter + 1),
            FieldStep::Sign(u, r) => (Outcome::Sign(index as usize, u, r), index, counter + 1),
            FieldStep::UnknownUser => (Outcome::UnknownUser(index as usize), index, counter + 1),
        }
    }
}

/// The widget annotations of a field that get the signature's appearance:
/// the annotation children that are indirect objects, in order.
pub open spec fn annotation_ids(widgets: Seq<Widget>) -> Seq<ObjectId>
    decreases widgets.len(),
{
    if widgets.len() == 0 {
        Seq::empty()
    } else {
        let w = widgets.last();
        let rest = annotation_ids(widgets.drop_last());
        if w.is_annotation && w.object_id is Some {
            rest.push(w.object_id->Some_0)
        } else {
            rest
        }
    }
}

/// The widget annotations of a field that get the signature's appearance.
pub fn appearance_targets(widgets: &Vec<Widget>) -> (r: Vec<ObjectId>)
    ensures
        r@ == annotation_ids(widgets@),
{
    let mut out: Vec<ObjectId> = Vec::new();
    let mut i: usize = 0;
    assert(widgets@.take(0) =~= Seq::<Widget>::empty());
    while i < widgets.len()
        invariant
            i <= widgets@.len(),
            out@ == annotation_ids(widgets@.take(i as int)),
        decreases widgets@.len() - i,
    {
        assert(widgets@.take(i + 1).drop_last() =~= widgets@.take(i as int));
        let w = widgets[i];
        if w.is_annotation {
            if let Some(id) = w.object_id {
                out.push(id);
            }
        }
        i = i + 1;
    }
    assert(widgets@.take(widgets@.len() as int) =~= widgets@);
    out
}

/// The id of the form XObject kept for `user_id`: the first one remembered.
pub open spec fn cached(cache: Seq<(String, ObjectId)>, user_id: Seq<char>) -> Option<ObjectId>
    decreases cache.len(),
{
    if cache.len() == 0 {
        None
    } else if cache[0].0@ == user_id {
        Some(cache[0].1)
    } else {
        cached(cache.skip(1), user_id)
    }
}

/// Finds the user with id `id`; where several have it, the last one.
pub fn find_user<'a>(users: &Vec<UserSignatureInfo<'a>>, id: &String) -> (r: Option<usize>)
    ensures
        r matches Some(u) ==> user_index(users@, id@) == Some(u as int),
        r is None ==> user_index(users@, id@) is None,
{
    let mut i: usize = users.len();
    assert(users@.take(i as int) =~= users@);
    while i > 0
        invariant
            i <= users@.len(),
            user_index(users@, id@) == user_index(users@.take(i as int), id@),
        decreases i,
    {
        let ghost prefix = users@.take(i as int);
        if users[i - 1].user_id == *id {
            return Some(i - 1);
        }
        assert(prefix.drop_last() =~= users@.take(i - 1));
        i = i - 1;
    }
    None
}

/// The state of the signing loop over a document's fields.
#[derive(Debug)]
pub struct SigningSession {
    /// The fields as the last scan found them.
    pub fields: Vec<AcroForm>,
    /// The field the loop looks at next.
    pub index: usize,
    /// Fields looked at so far, over all rounds.
    pub loop_counter: usize,
    /// Signatures completed so far.
    pub rounds: usize,
    /// The form XObject that holds each user's signature image.
    pub image_cache: Vec<(String, ObjectId)>,
}

impl SigningSession {
    /// A loop about to start on freshly scanned fields.
    pub fn new(fields: Vec<AcroForm>) -> (r: Self)
        ensures
            r.fields@ == fields@,
            r.index == 0,
            r.loop_counter == 0,
            r.rounds == 0,
            r.image_cache@.len() == 0,
    {
        SigningSession { fields, index: 0, loop_counter: 0, rounds: 0, image_cache: Vec::new() }
    }

    /// Walks on from the current field to the next one to sign. Fields that are
    /// not unsigned signatures, whose name binds no user, or that have no
    /// rectangle are passed over.
    pub fn next_field<'a>(&mut self, users: &Vec<UserSignatureInfo<'a>>) -> (r: Result<
        Option<SigningTarget>,
        Error,
    >)
        requires
            old(self).loop_counter < LOOP_LIMIT,
        ensures
            ({
                let (outcome, index, counter) = run(
                    old(self).fields@,
                    users@,
                    old(self).index as int,
                    old(self).loop_counter as int,
                );
                &&& final(self).fields == old(self).fields
                &&& final(self).rounds == old(self).rounds
                &&& final(self).image_cache == old(self).image_cache
                &&& final(self).loop_counter == counter
                &&& outcome is Sign ==> final(self).index == index
                &&& match outcome {
                    Outcome::Done => r matches Ok(None),
                    Outcome::LoopGuard => r matches Err(Error::LoopGuard),
                    Outcome::UnknownUser(f) => r matches Err(Error::UnknownUser(id)) && Some(
                        id@,
                    ) == field_user_id(old(self).fields@[f as int].partial_field_name->Some_0@),
                    Outcome::Sign(f, u, rect) => r == Ok::<Option<SigningTarget>, Error>(
                        Some(
                            SigningTarget {
                                field: f,
                                field_id: old(self).fields@[f as int].object_id->Some_0,
                                user: u,
                                rect,
                            },
                        ),
                    ),
                }
            }),
    {
        loop
            invariant
                self.fields == old(self).fields,
                self.rounds == old(self).rounds,
                self.image_cache == old(self).image_cache,
                self.loop_counter < LOOP_LIMIT,
                run(old(self).fields@, users@, old(self).index as int, old(self).loop_counter as int)
                    == run(self.fields@, users@, self.index as int, self.loop_counter as int),
            decreases self.fields@.len() - self.index,
        {
            if self.index >= self.fields.len() {
                return Ok(None);
            }
            self.loop_counter = self.loop_counter + 1;
            if self.loop_counter >= LOOP_LIMIT {
                return Err(Error::LoopGuard);
            }
            let field = &self.fields[self.index];
            if field.is_empty_signature() {
                if let (Some(field_id), Some(name)) = (field.object_id, &field.partial_field_name) {
                    if let Some(meta) = decode_field_meta(name.as_slice()) {
                        match find_user(users, &meta.user_id) {
                            None => return Err(Error::UnknownUser(meta.user_id)),
                            Some(user) => {
                                if let Some(rect) = get_rectangle_from_form(&field.widgets) {
                                    let target = SigningTarget { field: self.index, field_id, user, rect };
                                    return Ok(Some(target));
                                }
                            },
                        }
                    }
                }
            }
            self.index = self.index + 1;
        }
    }

    /// After a signature: the fields as scanned again from the new bytes; the
    /// loop starts over from the first field.
    pub fn reload(&mut self, fields: Vec<AcroForm>)
        requires
            old(self).rounds < usize::MAX,
        ensures
            final(self).fields@ == fields@,
            final(self).index == 0,
            final(self).rounds == old(self).rounds + 1,
            final(self).loop_counter == old(self).loop_counter,
            final(self).image_cache == old(self).image_cache,
    {
        self.fields = fields;
        self.index = 0;
        self.rounds = self.rounds + 1;
    }

    /// The form XObject already made for `user_id`, if any.
    pub fn cached_image(&self, user_id: &String) -> (r: Option<ObjectId>)
        ensures
            r == cached(self.image_cache@, user_id@),
    {
        let mut i: usize = 0;
        assert(self.image_cache@.skip(0) =~= self.image_cache@);
        while i < self.image_cache.len()
            invariant
                i <= self.image_cache@.len(),
                cached(self.image_cache@, user_id@) == cached(self.image_cache@.skip(i as int), user_id@),
            decreases self.image_cache@.len() - i,
        {
            assert(self.image_cache@.skip(i as int)[0] == self.image_cache@[i as int]);
            if self.image_cache[i].0 == *user_id {
                return Some(self.image_cache[i].1);
            }
            assert(self.image_cache@.skip(i as int).skip(1) =~= self.image_cache@.skip(i + 1));
            i = i + 1;
        }
        None
    }

    /// Keeps `image_id` as the form XObject of `user_id`, for the fields that
    /// the same user signs later.
    pub fn remember_image(&mut self, user_id: String, image_id: ObjectId)
        ensures
            final(self).fields == old(self).fields,
            final(self).index == old(self).index,
            final(self).loop_counter == old(self).loop_counter,
            final(self).rounds == old(self).rounds,
            final(self).image_cache@ == old(self).image_cache@.push((user_id, image_id)),
    {
        self.image_cache.push((user_id, image_id));
    }

    /// The bytes that signing gives: those of the last round, or the input
    /// unchanged where no field was signed.
    pub fn result_bytes(&self, input: Vec<u8>, last: Option<Vec<u8>>) -> (r: Vec<u8>)
        ensures
            self.rounds == 0 || last is None ==> r@ == input@,
            self.rounds > 0 && last is Some ==> r@ == last->Some_0@,
    {
        if self.rounds == 0 {
            return input;
        }
        match last {
            Some(bytes) => bytes,
            None => input,
        }
    }
}

/// A document whose fields are all signed, or are no signatures at all, has
/// nothing to sign: the loop is done at once, so signing returns the input
/// unchanged. This holds while the fields are fewer than the loop limit.
pub proof fn lemma_nothing_to_sign<'a>(
    fields: Seq<AcroForm>,
    users: Seq<UserSignatureInfo<'a>>,
    index: int,
    counter: int,
)
    requires
        forall|i: int| 0 <= i < fields.len() ==> !((#[trigger] fields[i]).form_component is EmptySignature),
        0 <= index,
        0 <= counter,
        counter + fields.len() - index + 1 < LOOP_LIMIT,
    ensures
        run(fields, users, index, counter).0 == Outcome::Done,
    decreases fields.len() - index,
{
    if index < fields.len() {
        assert(field_step(fields[index], users) == FieldStep::Skip);
        lemma_nothing_to_sign(fields, users, index + 1, counter + 1);
    }
}

/// Once a user's form XObject is remembered, a later field of the same user
/// finds it, unless one was remembered for that user before.
pub proof fn lemma_image_reused(cache: Seq<(String, ObjectId)>, user_id: String, image_id: ObjectId)
    requires
        cached(cache, user_id@) is None,
    ensures
        cached(cache.push((user_id, image_id)), user_id@) == Some(image_id),
    decreases cache.len(),
{
    if cache.len() > 0 {
        assert(cache.push((user_id, image_id)).skip(1) =~= cache.skip(1).push((user_id, image_id)));
        lemma_image_reused(cache.skip(1), user_id, image_id);
    }
}

/// A user's first remembered form XObject stays the one found, whatever is
/// remembered later.
pub proof fn lemma_image_kept(cache: Seq<(String, ObjectId)>, user_id: Seq<char>, entry: (String, ObjectId))
    requires
        cached(cache, user_id) is Some,
    ensures
        cached(cache.push(entry), user_id) == cached(cache, user_id),
    decreases cache.len(),
{
    if cache[0].0@ != user_id {
        assert(cache.push(entry).skip(1) =~= cache.skip(1).push(entry));
        lemma_image_kept(cache.skip(1), user_id, entry);
    }
}

/// When the loop is done, every field from where it started is one it passes
/// over: none is left unsigned that binds a provided user and has a place
/// for the signature.
pub proof fn lemma_done_leaves_nothing_to_sign<'a>(
    fields: Seq<AcroForm>,
    users: Seq<UserSignatureInfo<'a>>,
    index: int,
    counter: int,
)
    requires
        0 <= index,
        run(fields, users, index, counter).0 == Outcome::Done,
    ensures
        forall|i: int| index <= i < fields.len() ==> field_step(#[trigger] fields[i], users) == FieldStep::Skip,
    decreases fields.len() - index,
{
    if index < fields.len() {
        lemma_done_leaves_nothing_to_sign(fields, users, index + 1, counter + 1);
    }
}

} // verus!
