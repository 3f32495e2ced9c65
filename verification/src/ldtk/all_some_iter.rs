use vstd::prelude::*;

verus! {

/// Error for a sequence of options that holds one or more `None`s.
#[derive(Copy, Clone, Debug, PartialEq, Eq, Structural)]
pub struct NotAllSomeError;

impl NotAllSomeError {
    /// The error's message.
    pub fn message(&self) -> (message: &'static str)
        ensures
            message@ == "Option<T> iterator contains one or more Nones"@,
    {
        "Option<T> iterator contains one or more Nones"
    }
}

/// Every option of `values` holds a value.
pub open spec fn all_some<T>(values: Seq<Option<T>>) -> bool {
    forall|i: int| 0 <= i < values.len() ==> (#[trigger] values[i]) is Some
}

/// The values held by `values`, in order.
pub open spec fn unwrap_all<T>(values: Seq<Option<T>>) -> Seq<T> {
    values.map_values(|v: Option<T>| v->0)
}

/// Iterator over the contents of a slice of options that are all `Some`.
pub struct AllSomeIter<'a, T> {
    items: Vec<&'a T>,
    position: usize,
}

impl<'a, T> AllSomeIter<'a, T> {
    #[verifier::type_invariant]
    spec fn position_in_bounds(self) -> bool {
        self.position <= self.items@.len()
    }

    /// The values that are still to come, in order.
    pub closed spec fn remaining(self) -> Seq<T> {
        Seq::new(
            (self.items@.len() - self.position) as nat,
            |i: int| *self.items@[self.position + i],
        )
    }

    /// An iterator over the values held by `value`, if every option of it holds one.
    pub fn try_from(value: &'a [Option<T>]) -> (iter: Result<Self, NotAllSomeError>)
        ensures
            iter is Ok <==> all_some(value@),
            iter matches Ok(it) ==> it.remaining() == unwrap_all(value@),
    {
        let mut items: Vec<&'a T> = Vec::new();
        let mut i: usize = 0;
        while i < value.len()
            invariant
                i <= value@.len(),
                items@.len() == i,
                forall|k: int| 0 <= k < i ==> (#[trigger] value@[k]) is Some && *items@[k]
                    == value@[k]->0,
            decreases value@.len() - i,
        {
            match &value[i] {
                Some(v) => items.push(v),
                None => return Err(NotAllSomeError),
            }
            i = i + 1;
        }
        let iter = AllSomeIter { items, position: 0 };
        assert(iter.remaining() =~= unwrap_all(value@));
        Ok(iter)
    }

    /// The next value, if any is left.
    pub fn next(&mut self) -> (item: Option<&'a T>)
        ensures
            old(self).remaining().len() == 0 ==> item is None && final(self).remaining() == old(
                self,
            ).remaining(),
            old(self).remaining().len() > 0 ==> (item matches Some(v) && *v == old(
                self,
            ).remaining()[0] && final(self).remaining() == old(self).remaining().drop_first()),
    {
        proof {
            use_type_invariant(&*self);
        }
        if self.position < self.items.len() {
            let item = self.items[self.position];
            let ghost before = self.remaining();
            self.position = self.position + 1;
            assert(self.remaining() =~= before.drop_first());
            Some(item)
        } else {
            None
        }
    }
}

} // verus!
