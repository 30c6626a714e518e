use vstd::prelude::*;

verus! {

/// Name of the attribute that holds a stream's identifier.
pub const ID_ATTR: &'static str = "StreamID";

/// Name of the attribute that holds a stream's online flag.
pub const ONLINE_ATTR: &'static str = "Online";

/// One typed value of a snapshot, reduced to the kinds that projection reads.
#[derive(Debug, PartialEq, Eq)]
pub enum AttrValue {
    /// A string value.
    Str(String),
    /// A boolean value.
    Bool(bool),
    /// An explicit null.
    Null,
    /// Any other kind of value (numbers, binary, sets, lists, maps).
    Other,
}

/// What an attribute value holds.
pub ghost enum AttrView {
    Str(Seq<char>),
    Bool(bool),
    Null,
    Other,
}

impl View for AttrValue {
    type V = AttrView;

    open spec fn view(&self) -> AttrView {
        match self {
            AttrValue::Str(s) => AttrView::Str(s@),
            AttrValue::Bool(b) => AttrView::Bool(*b),
            AttrValue::Null => AttrView::Null,
            AttrValue::Other => AttrView::Other,
        }
    }
}

/// A row's state before or after a mutation: attribute names with their values.
/// Where a name occurs twice, the first occurrence is the one that counts.
#[derive(Debug, PartialEq, Eq)]
pub struct Snapshot {
    pub attributes: Vec<(String, AttrValue)>,
}

pub open spec fn attr_view(p: (String, AttrValue)) -> (Seq<char>, AttrView) {
    (p.0@, p.1@)
}

impl View for Snapshot {
    type V = Seq<(Seq<char>, AttrView)>;

    open spec fn view(&self) -> Seq<(Seq<char>, AttrView)> {
        self.attributes@.map_values(|p: (String, AttrValue)| attr_view(p))
    }
}

/// The value of the first attribute called `name`, if any.
pub open spec fn find(attrs: Seq<(Seq<char>, AttrView)>, name: Seq<char>) -> Option<AttrView>
    decreases attrs.len(),
{
    if attrs.len() == 0 {
        None
    } else if attrs[0].0 == name {
        Some(attrs[0].1)
    } else {
        find(attrs.drop_first(), name)
    }
}

/// A monitored stream as a snapshot describes it.
pub ghost struct Entity {
    pub id: Seq<char>,
    pub online: Option<bool>,
}

/// Why a snapshot does not describe a stream.
#[derive(Debug, Clone, Copy, PartialEq, Eq, Structural)]
pub enum ProjectionError {
    /// The identifier attribute is absent.
    MissingId,
    /// The identifier attribute is not a string.
    IdNotString,
    /// The online flag is present, not null, and not a boolean.
    OnlineNotBool,
}

/// The projection of a snapshot onto a stream: the identifier must be a string;
/// the online flag may be absent or null, and is otherwise a boolean.
pub open spec fn project(attrs: Seq<(Seq<char>, AttrView)>) -> Result<Entity, ProjectionError> {
    match find(attrs, ID_ATTR@) {
        None => Err(ProjectionError::MissingId),
        Some(AttrView::Str(id)) => match find(attrs, ONLINE_ATTR@) {
            None => Ok(Entity { id, online: None }),
            Some(AttrView::Null) => Ok(Entity { id, online: None }),
            Some(AttrView::Bool(b)) => Ok(Entity { id, online: Some(b) }),
            Some(_) => Err(ProjectionError::OnlineNotBool),
        },
        Some(_) => Err(ProjectionError::IdNotString),
    }
}

/// The snapshot that a stream is stored as: its identifier, and its online
/// flag as a boolean or, where unset, as null.
pub open spec fn stored(e: Entity) -> Seq<(Seq<char>, AttrView)> {
    seq![
        (ID_ATTR@, AttrView::Str(e.id)),
        (ONLINE_ATTR@, match e.online {
            Some(b) => AttrView::Bool(b),
            None => AttrView::Null,
        }),
    ]
}

/// A monitored stream: its identifier and its online flag, which storage may lack.
#[derive(Debug, PartialEq, Eq)]
pub struct MyModel {
    pub stream_id: String,
    pub online: Option<bool>,
}

impl View for MyModel {
    type V = Entity;

    open spec fn view(&self) -> Entity {
        Entity { id: self.stream_id@, online: self.online }
    }
}

/// The online flag, with an unset flag read as offline.
pub open spec fn online_of(e: Entity) -> bool {
    match e.online {
        Some(b) => b,
        None => false,
    }
}

/// Index of the first attribute called `name`.
fn find_attr(attrs: &Vec<(String, AttrValue)>, name: &String) -> (r: Option<usize>)
    ensures
        match r {
            Some(i) => i < attrs@.len() && find(
                attrs@.map_values(|p: (String, AttrValue)| attr_view(p)),
                name@,
            ) == Some(attrs@[i as int].1@),
            None => find(attrs@.map_values(|p: (String, AttrValue)| attr_view(p)), name@) is None,
        },
{
    let ghost view = attrs@.map_values(|p: (String, AttrValue)| attr_view(p));
    let mut i: usize = 0;
    assert(view.skip(0) =~= view);
    while i < attrs.len()
        invariant
            i <= attrs@.len(),
            view == attrs@.map_values(|p: (String, AttrValue)| attr_view(p)),
            find(view, name@) == find(view.skip(i as int), name@),
        decreases attrs@.len() - i,
    {
        assert(view.skip(i as int)[0] == attr_view(attrs@[i as int]));
        if attrs[i].0 == *name {
            return Some(i);
        }
        assert(view.skip(i as int).drop_first() =~= view.skip(i + 1));
        i = i + 1;
    }
    None
}

impl Snapshot {
    /// Projects this snapshot onto a stream (see `project`); the snapshot is unchanged.
    pub fn project(&self) -> (r: Result<MyModel, ProjectionError>)
        ensures
            match r {
                Ok(m) => project(self@) == Ok::<Entity, ProjectionError>(m@),
                Err(e) => project(self@) == Err::<Entity, ProjectionError>(e),
            },
    {
        let id_name = String::from_str(ID_ATTR);
        let online_name = String::from_str(ONLINE_ATTR);
        match find_attr(&self.attributes, &id_name) {
            None => Err(ProjectionError::MissingId),
            Some(i) => match &self.attributes[i].1 {
                AttrValue::Str(id) => match find_attr(&self.attributes, &online_name) {
                    None => Ok(MyModel { stream_id: id.clone(), online: None }),
                    Some(j) => match &self.attributes[j].1 {
                        AttrValue::Null => Ok(MyModel { stream_id: id.clone(), online: None }),
                        AttrValue::Bool(b) => Ok(MyModel { stream_id: id.clone(), online: Some(*b) }),
                        _ => Err(ProjectionError::OnlineNotBool),
                    },
                },
                _ => Err(ProjectionError::IdNotString),
            },
        }
    }
}

impl MyModel {
    /// The online flag, with an unset flag read as offline.
    pub fn get_online(self) -> (r: bool)
        ensures
            r == online_of(self@),
    {
        self.online.unwrap_or_default()
    }

    /// The snapshot that this stream is stored as (see `stored`).
    pub fn to_snapshot(&self) -> (r: Snapshot)
        ensures
            r@ == stored(self@),
    {
        let online = match self.online {
            Some(b) => AttrValue::Bool(b),
            None => AttrValue::Null,
        };
        let attributes = vec![
            (String::from_str(ID_ATTR), AttrValue::Str(self.stream_id.clone())),
            (String::from_str(ONLINE_ATTR), online),
        ];
        let r = Snapshot { attributes };
        assert(r@ =~= stored(self@));
        r
    }
}

/// A snapshot with a string identifier and no online flag projects to a
/// stream whose flag is unset, and so reads as offline.
pub proof fn lemma_absent_flag_reads_offline(s: Snapshot)
    requires
        find(s@, ID_ATTR@) matches Some(AttrView::Str(_)),
        find(s@, ONLINE_ATTR@) is None,
    ensures
        project(s@) matches Ok(e) && e.online is None && online_of(e) == false,
{
}

/// A snapshot without the identifier attribute fails to project, whatever
/// else it holds.
pub proof fn lemma_missing_id_fails(s: Snapshot)
    requires
        find(s@, ID_ATTR@) is None,
    ensures
        project(s@) == Err::<Entity, ProjectionError>(ProjectionError::MissingId),
{
}

/// Storing a stream and projecting the stored snapshot gives the stream back.
pub proof fn lemma_stored_projects_back(e: Entity)
    ensures
        project(stored(e)) == Ok::<Entity, ProjectionError>(e),
{
    reveal_strlit("StreamID");
    reveal_strlit("Online");
    assert(ID_ATTR@[0] != ONLINE_ATTR@[0]);
    let t = stored(e);
    assert(t[0].0 != ONLINE_ATTR@);
    assert(find(t, ONLINE_ATTR@) == find(t.drop_first(), ONLINE_ATTR@));
    assert(t.drop_first()[0] == t[1]);
}

/// Projecting a snapshot and storing the result keeps the identifier attribute
/// as it was. The online flag is not kept in general: an absent flag comes
/// back as null.
pub proof fn lemma_identifier_round_trip(s: Snapshot)
    requires
        project(s@) is Ok,
    ensures
        find(stored(project(s@)->Ok_0), ID_ATTR@) == find(s@, ID_ATTR@),
{
}

} // verus!
