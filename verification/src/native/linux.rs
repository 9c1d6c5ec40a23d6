//! Joysticks on Linux: the file descriptors of the opened evdev devices.

use vstd::prelude::*;

verus! {

/// The file descriptors that opened, in the order of the devices: `-1`
/// marks a device that could not be opened.
pub open spec fn opened_fds(opened: Seq<i32>) -> Seq<i32> {
    opened.filter(|fd: i32| fd != -1)
}

/// The model id that the device id query reports as four numbers (bus,
/// vendor, product, version): vendor in the upper half and product in the
/// lower half, where a negative product, widened with its sign, fills the
/// upper half with ones and so leaves the product alone.
pub open spec fn model_id(vendor: i16, product: i16) -> i32 {
    if product >= 0 {
        (vendor * 65536 + product) as i32
    } else {
        product as i32
    }
}

/// The opened evdev joystick devices.
pub struct Joystick {
    pub fds: Vec<i32>,
}

impl Joystick {
    /// The joysticks whose devices opened: `opened` holds, for each device
    /// found, the file descriptor that opening it returned.
    pub fn new(opened: Vec<i32>) -> (r: Joystick)
        ensures
            r.fds@ == opened_fds(opened@),
    {
        let mut fds: Vec<i32> = Vec::new();
        let mut i: usize = 0;
        while i < opened.len()
            invariant
                i <= opened@.len(),
                fds@ == opened_fds(opened@.subrange(0, i as int)),
            decreases opened@.len() - i,
        {
            let fd = opened[i];
            proof {
                assert(opened@.subrange(0, i + 1) =~= opened@.subrange(0, i as int).push(fd));
                opened@.subrange(0, i as int).lemma_filter_push(fd, |fd: i32| fd != -1);
            }
            if fd != -1 {
                fds.push(fd);
            }
            i = i + 1;
        }
        proof {
            assert(opened@.subrange(0, opened@.len() as int) =~= opened@);
        }
        Joystick { fds }
    }

    /// The file descriptor of joystick `id`.
    pub fn fd(&self, id: usize) -> (r: i32)
        requires
            id < self.fds@.len(),
        ensures
            r == self.fds@[id as int],
    {
        self.fds[id]
    }

    /// The model id of joystick `id` and whether the query failed, from the
    /// query's reply (`None` when it failed): `(0, true)` on failure.
    pub fn get_id(&self, id: usize, reply: Option<[i16; 4]>) -> (r: (i32, bool))
        requires
            id < self.fds@.len(),
        ensures
            r == match reply {
                Some(a) => (model_id(a@[1], a@[2]), false),
                None => (0i32, true),
            },
    {
        match reply {
            Some(a) => {
                let vendor = a[1];
                let product = a[2];
                let id = ((vendor as i32) << 16u32) | (product as i32);
                assert(id == model_id(vendor, product)) by (bit_vector)
                    requires
                        id == ((vendor as i32) << 16u32) | (product as i32),
                ;
                (id, false)
            },
            None => (0, true),
        }
    }

    /// The raw range of the axes of joystick `id` and whether the query
    /// failed, from the query's reply (least and greatest value, `None` when
    /// it failed): `(0, 0, true)` on failure.
    pub fn get_abs(&self, id: usize, reply: Option<(i32, i32)>) -> (r: (i32, i32, bool))
        requires
            id < self.fds@.len(),
        ensures
            r == match reply {
                Some((min, max)) => (min, max, false),
                None => (0i32, 0i32, true),
            },
    {
        match reply {
            Some((min, max)) => (min, max, false),
            None => (0, 0, true),
        }
    }

    /// Number of joysticks.
    pub fn num_plugged_in(&self) -> (r: usize)
        ensures
            r == self.fds@.len(),
    {
        self.fds.len()
    }

    /// Forget joystick `i`, once its device is closed; the joysticks after
    /// it move down by one.
    pub fn disconnect(&mut self, i: usize)
        requires
            i < old(self).fds@.len(),
        ensures
            final(self).fds@ == old(self).fds@.remove(i as int),
    {
        self.fds.remove(i);
    }
}

} // verus!
