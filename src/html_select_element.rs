use vstd::prelude::*;

verus! {

/// A generic HTML element.
#[derive(Debug, Default, Clone, Copy, PartialEq, Eq, Structural)]
pub struct HTMLElement {}

/// A form that a control belongs to.
#[derive(Debug, Default, Clone, Copy, PartialEq, Eq, Structural)]
pub struct HTMLFormElement {}

/// An `option` element.
#[derive(Debug, Default, Clone, Copy, PartialEq, Eq, Structural)]
pub struct HTMLOptionElement {}

/// An `optgroup` element.
#[derive(Debug, Default, Clone, Copy, PartialEq, Eq, Structural)]
pub struct HTMLOptGroupElement {}

/// The options of a `select`.
#[derive(Debug, Default, Clone, Copy, PartialEq, Eq, Structural)]
pub struct HTMLOptionsCollection {}

/// A live list of elements.
#[derive(Debug, Default, Clone, Copy, PartialEq, Eq, Structural)]
pub struct HTMLCollection {}

/// The validity flags of a form control.
#[derive(Debug, Default, Clone, Copy, PartialEq, Eq, Structural)]
pub struct ValidityState {}

/// A list of nodes.
#[derive(Debug, Default, Clone, Copy, PartialEq, Eq, Structural)]
pub struct NodeList {}

/// The `select` form control: its IDL attributes and methods.
pub struct HTMLSelectElement {
    autocomplete: String,
    disabled: bool,
    form: Option<HTMLFormElement>,
    multiple: bool,
    name: String,
    required: bool,
    size: u32,
    options: HTMLOptionsCollection,
    length: u32,
    selected_index: i32,
    value: String,
    will_validate: bool,
    validity: ValidityState,
    validation_message: String,
    labels: NodeList,
}

impl HTMLSelectElement {
    pub closed spec fn autocomplete_view(&self) -> Seq<char> {
        self.autocomplete@
    }

    pub closed spec fn name_view(&self) -> Seq<char> {
        self.name@
    }

    pub closed spec fn value_view(&self) -> Seq<char> {
        self.value@
    }

    pub closed spec fn validation_message_view(&self) -> Seq<char> {
        self.validation_message@
    }

    pub closed spec fn flags(&self) -> (bool, bool, bool, bool) {
        (self.disabled, self.multiple, self.required, self.will_validate)
    }

    pub closed spec fn numbers(&self) -> (u32, u32, i32) {
        (self.size, self.length, self.selected_index)
    }

    pub closed spec fn has_form(&self) -> bool {
        self.form is Some
    }

    /// A select with empty strings, cleared flags and zero numbers.
    pub fn new() -> (s: Self)
        ensures
            s.autocomplete_view().len() == 0,
            s.name_view().len() == 0,
            s.value_view().len() == 0,
            s.validation_message_view().len() == 0,
            s.flags() == (false, false, false, false),
            s.numbers() == (0u32, 0u32, 0i32),
            !s.has_form(),
    {
        HTMLSelectElement {
            autocomplete: String::new(),
            disabled: false,
            form: None,
            multiple: false,
            name: String::new(),
            required: false,
            size: 0,
            options: HTMLOptionsCollection {},
            length: 0,
            selected_index: 0,
            value: String::new(),
            will_validate: false,
            validity: ValidityState {},
            validation_message: String::new(),
            labels: NodeList {},
        }
    }


    pub fn autocomplete(&self) -> (r: &str)
        ensures
            r@ == self.autocomplete_view(),
    {
        self.autocomplete.as_str()
    }

    pub fn set_autocomplete(&mut self, value: String)
        ensures
            final(self).autocomplete_view() == value@,
            final(self).name_view() == old(self).name_view(),
            final(self).value_view() == old(self).value_view(),
            final(self).validation_message_view() == old(self).validation_message_view(),
            final(self).flags() == old(self).flags(),
            final(self).numbers() == old(self).numbers(),
            final(self).has_form() == old(self).has_form(),
    {
        self.autocomplete = value;
    }

    pub fn disabled(&self) -> (r: bool)
        ensures
            r == self.flags().0,
    {
        self.disabled
    }

    pub fn set_disabled(&mut self, value: bool)
        ensures
            final(self).flags() == (value, old(self).flags().1, old(self).flags().2, old(self).flags().3),
            final(self).autocomplete_view() == old(self).autocomplete_view(),
            final(self).name_view() == old(self).name_view(),
            final(self).value_view() == old(self).value_view(),
            final(self).validation_message_view() == old(self).validation_message_view(),
            final(self).numbers() == old(self).numbers(),
            final(self).has_form() == old(self).has_form(),
    {
        self.disabled = value;
    }

    pub fn form(&self) -> (r: Option<&HTMLFormElement>)
        ensures
            r is Some == self.has_form(),
    {
        match &self.form {
            Some(f) => Some(f),
            None => None,
        }
    }

    pub fn multiple(&self) -> (r: bool)
        ensures
            r == self.flags().1,
    {
        self.multiple
    }

    pub fn set_multiple(&mut self, value: bool)
        ensures
            final(self).flags() == (old(self).flags().0, value, old(self).flags().2, old(self).flags().3),
            final(self).autocomplete_view() == old(self).autocomplete_view(),
            final(self).name_view() == old(self).name_view(),
            final(self).value_view() == old(self).value_view(),
            final(self).validation_message_view() == old(self).validation_message_view(),
            final(self).numbers() == old(self).numbers(),
            final(self).has_form() == old(self).has_form(),
    {
        self.multiple = value;
    }

    pub fn name(&self) -> (r: &str)
        ensures
            r@ == self.name_view(),
    {
        self.name.as_str()
    }

    pub fn set_name(&mut self, value: String)
        ensures
            final(self).name_view() == value@,
            final(self).autocomplete_view() == old(self).autocomplete_view(),
            final(self).value_view() == old(self).value_view(),
            final(self).validation_message_view() == old(self).validation_message_view(),
            final(self).flags() == old(self).flags(),
            final(self).numbers() == old(self).numbers(),
            final(self).has_form() == old(self).has_form(),
    {
        self.name = value;
    }

    pub fn required(&self) -> (r: bool)
        ensures
            r == self.flags().2,
    {
        self.required
    }

    pub fn set_required(&mut self, value: bool)
        ensures
            final(self).flags() == (old(self).flags().0, old(self).flags().1, value, old(self).flags().3),
            final(self).autocomplete_view() == old(self).autocomplete_view(),
            final(self).name_view() == old(self).name_view(),
            final(self).value_view() == old(self).value_view(),
            final(self).validation_message_view() == old(self).validation_message_view(),
            final(self).numbers() == old(self).numbers(),
            final(self).has_form() == old(self).has_form(),
    {
        self.required = value;
    }

    pub fn size(&self) -> (r: u32)
        ensures
            r == self.numbers().0,
    {
        self.size
    }

    pub fn set_size(&mut self, value: u32)
        ensures
            final(self).numbers() == (value, old(self).numbers().1, old(self).numbers().2),
            final(self).autocomplete_view() == old(self).autocomplete_view(),
            final(self).name_view() == old(self).name_view(),
            final(self).value_view() == old(self).value_view(),
            final(self).validation_message_view() == old(self).validation_message_view(),
            final(self).flags() == old(self).flags(),
            final(self).has_form() == old(self).has_form(),
    {
        self.size = value;
    }

    /// `"select-multiple"` when the multiple flag is set, else `"select-one"`.
    pub fn select_type(&self) -> (r: &'static str)
        ensures
            self.flags().1 ==> r@ == "select-multiple"@,
            !self.flags().1 ==> r@ == "select-one"@,
    {
        if self.multiple {
            "select-multiple"
        } else {
            "select-one"
        }
    }

    pub fn options(&self) -> &HTMLOptionsCollection {
        &self.options
    }

    pub fn length(&self) -> (r: u32)
        ensures
            r == self.numbers().1,
    {
        self.length
    }

    pub fn set_length(&mut self, value: u32)
        ensures
            final(self).numbers() == (old(self).numbers().0, value, old(self).numbers().2),
            final(self).autocomplete_view() == old(self).autocomplete_view(),
            final(self).name_view() == old(self).name_view(),
            final(self).value_view() == old(self).value_view(),
            final(self).validation_message_view() == old(self).validation_message_view(),
            final(self).flags() == old(self).flags(),
            final(self).has_form() == old(self).has_form(),
    {
        self.length = value;
    }

    /// The option at `index`; this element keeps no option elements, so
    /// there is none.
    pub fn item(&self, index: u32) -> (r: Option<&HTMLOptionElement>)
        ensures
            r is None,
    {
        None
    }

    /// The option with the given name; this element keeps no option
    /// elements, so there is none.
    pub fn named_item(&self, name: &str) -> (r: Option<&HTMLOptionElement>)
        ensures
            r is None,
    {
        None
    }

    /// Adding an option changes none of the attributes kept here.
    pub fn add(&mut self, element: HTMLOptionElement, before: Option<HTMLOptGroupElement>)
        ensures
            final(self).autocomplete_view() == old(self).autocomplete_view(),
            final(self).name_view() == old(self).name_view(),
            final(self).value_view() == old(self).value_view(),
            final(self).validation_message_view() == old(self).validation_message_view(),
            final(self).flags() == old(self).flags(),
            final(self).numbers() == old(self).numbers(),
            final(self).has_form() == old(self).has_form(),
    {
    }

    /// Removing the element from its parent changes none of its attributes.
    pub fn remove(&mut self)
        ensures
            final(self).autocomplete_view() == old(self).autocomplete_view(),
            final(self).name_view() == old(self).name_view(),
            final(self).value_view() == old(self).value_view(),
            final(self).validation_message_view() == old(self).validation_message_view(),
            final(self).flags() == old(self).flags(),
            final(self).numbers() == old(self).numbers(),
            final(self).has_form() == old(self).has_form(),
    {
    }

    /// Removing an option changes none of the attributes kept here.
    pub fn remove_at(&mut self, index: i32)
        ensures
            final(self).autocomplete_view() == old(self).autocomplete_view(),
            final(self).name_view() == old(self).name_view(),
            final(self).value_view() == old(self).value_view(),
            final(self).validation_message_view() == old(self).validation_message_view(),
            final(self).flags() == old(self).flags(),
            final(self).numbers() == old(self).numbers(),
            final(self).has_form() == old(self).has_form(),
    {
    }

    /// Setting an option changes none of the attributes kept here.
    pub fn set_at(&mut self, index: u32, option: Option<HTMLOptionElement>)
        ensures
            final(self).autocomplete_view() == old(self).autocomplete_view(),
            final(self).name_view() == old(self).name_view(),
            final(self).value_view() == old(self).value_view(),
            final(self).validation_message_view() == old(self).validation_message_view(),
            final(self).flags() == old(self).flags(),
            final(self).numbers() == old(self).numbers(),
            final(self).has_form() == old(self).has_form(),
    {
    }

    /// The selected options: an empty collection.
    pub fn selected_options(&self) -> HTMLCollection {
        HTMLCollection {}
    }

    pub fn selected_index(&self) -> (r: i32)
        ensures
            r == self.numbers().2,
    {
        self.selected_index
    }

    pub fn set_selected_index(&mut self, index: i32)
        ensures
            final(self).numbers() == (old(self).numbers().0, old(self).numbers().1, index),
            final(self).autocomplete_view() == old(self).autocomplete_view(),
            final(self).name_view() == old(self).name_view(),
            final(self).value_view() == old(self).value_view(),
            final(self).validation_message_view() == old(self).validation_message_view(),
            final(self).flags() == old(self).flags(),
            final(self).has_form() == old(self).has_form(),
    {
        self.selected_index = index;
    }

    pub fn value(&self) -> (r: &str)
        ensures
            r@ == self.value_view(),
    {
        self.value.as_str()
    }

    pub fn set_value(&mut self, value: String)
        ensures
            final(self).value_view() == value@,
            final(self).autocomplete_view() == old(self).autocomplete_view(),
            final(self).name_view() == old(self).name_view(),
            final(self).validation_message_view() == old(self).validation_message_view(),
            final(self).flags() == old(self).flags(),
            final(self).numbers() == old(self).numbers(),
            final(self).has_form() == old(self).has_form(),
    {
        self.value = value;
    }

    pub fn will_validate(&self) -> (r: bool)
        ensures
            r == self.flags().3,
    {
        self.will_validate
    }

    pub fn validity(&self) -> &ValidityState {
        &self.validity
    }

    pub fn validation_message(&self) -> (r: &str)
        ensures
            r@ == self.validation_message_view(),
    {
        self.validation_message.as_str()
    }

    /// Validity is not checked by this element: the answer is false.
    pub fn check_validity(&self) -> (r: bool)
        ensures
            !r,
    {
        false
    }

    /// Validity is not reported by this element: the answer is false.
    pub fn report_validity(&self) -> (r: bool)
        ensures
            !r,
    {
        false
    }

    /// Sets the custom validation message.
    pub fn set_custom_validity(&mut self, error: &str)
        ensures
            final(self).validation_message_view() == error@,
            final(self).autocomplete_view() == old(self).autocomplete_view(),
            final(self).name_view() == old(self).name_view(),
            final(self).value_view() == old(self).value_view(),
            final(self).flags() == old(self).flags(),
            final(self).numbers() == old(self).numbers(),
            final(self).has_form() == old(self).has_form(),
    {
        self.validation_message = error.to_owned();
    }

    /// Showing the picker is a user-interface action; nothing here changes.
    pub fn show_picker(&self) {
    }

    pub fn labels(&self) -> &NodeList {
        &self.labels
    }
}

} // verus!
